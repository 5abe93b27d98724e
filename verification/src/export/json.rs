//! Names of session files.

use crate::fields::{first_of, lemma_first_of, nth_field};
use crate::session::Session;
use crate::text::{
    char_len, chars_of, copy_of, is_control, is_control_char, lemma_bytes_front, lemma_bytes_grow,
    push_text, string_of,
    text_bytes,
};
use crate::time::{format_utc, has_date, utc_text, COMPACT};
use vstd::prelude::*;

verus! {

/// The most bytes of a target's name that a file name takes, so that the whole
/// stays below the usual limit of 255 bytes.
pub const MAX_TARGET_BYTES: usize = 200;

/// Whether a character has no place in a file name.
pub open spec fn is_unsafe_char(c: char) -> bool {
    is_control_char(c) || c == '/' || c == '\\' || c == ':' || c == '*' || c == '?' || c == '"' || c
        == '<' || c == '>' || c == '|'
}

/// Text with an underscore for each character that has no place in a file
/// name.
pub open spec fn safe_chars(s: Seq<char>) -> Seq<char> {
    Seq::new(
        s.len(),
        |i: int|
            if is_unsafe_char(s[i]) {
                '_'
            } else {
                s[i]
            },
    )
}

/// The longest start of text that has at most `max` bytes.
pub open spec fn capped(s: Seq<char>, max: nat) -> Seq<char>
    decreases s.len(),
{
    if s.len() == 0 || text_bytes(s) <= max {
        s
    } else {
        capped(s.drop_last(), max)
    }
}

/// Text without dots and spaces at its end.
pub open spec fn without_tail(s: Seq<char>) -> Seq<char>
    decreases s.len(),
{
    if s.len() > 0 && (s.last() == ' ' || s.last() == '.') {
        without_tail(s.drop_last())
    } else {
        s
    }
}

/// The capital of an ASCII letter; any other character as it is.
pub open spec fn ascii_upper(c: char) -> char {
    if 'a' <= c <= 'z' {
        (c as u32 - 32) as char
    } else {
        c
    }
}

/// Text in capitals, as far as it is ASCII.
pub open spec fn upper_case(s: Seq<char>) -> Seq<char> {
    Seq::new(s.len(), |i: int| ascii_upper(s[i]))
}

/// Whether text, in capitals, is the name of a Windows device.
pub open spec fn is_device(name: Seq<char>) -> bool {
    let b = upper_case(name);
    ||| b == seq!['C', 'O', 'N']
    ||| b == seq!['P', 'R', 'N']
    ||| b == seq!['A', 'U', 'X']
    ||| b == seq!['N', 'U', 'L']
    ||| b.len() == 4 && (b.take(3) == seq!['C', 'O', 'M'] || b.take(3) == seq!['L', 'P', 'T'])
        && '1' <= b[3] <= '9'
}

/// What stands before the first dot.
pub open spec fn base_name(s: Seq<char>) -> Seq<char> {
    s.take(first_of(s, '.') as int)
}

/// Text made fit for a file name.
pub open spec fn file_name(s: Seq<char>) -> Seq<char> {
    let kept = without_tail(capped(safe_chars(s), MAX_TARGET_BYTES as nat));
    if kept.len() == 0 {
        seq!['_']
    } else if is_device(base_name(kept)) {
        seq!['_'] + kept
    } else {
        kept
    }
}

/// The capital of an ASCII letter.
fn upper(c: char) -> (r: char)
    ensures
        r == ascii_upper(c),
{
    if 'a' <= c && c <= 'z' {
        let code: u8 = c as u8;
        (code - 32) as char
    } else {
        c
    }
}

/// Text in capitals, as far as it is ASCII.
pub fn to_upper(chars: &Vec<char>) -> (r: String)
    ensures
        r@ == upper_case(chars@),
{
    let mut out: String = String::new();
    let mut i: usize = 0;
    while i < chars.len()
        invariant
            i <= chars.len(),
            out@ =~= upper_case(chars@.take(i as int)),
        decreases chars.len() - i,
    {
        out.push(upper(chars[i]));
        i = i + 1;
    }
    assert(chars@.take(chars@.len() as int) =~= chars@);
    out
}

/// Whether text is the name of a Windows device.
fn device(name: &Vec<char>) -> (r: bool)
    ensures
        r == is_device(name@),
{
    let ghost b = upper_case(name@);
    if name.len() != 3 && name.len() != 4 {
        proof {
            assert(seq!['C', 'O', 'N'].len() == 3);
            assert(seq!['P', 'R', 'N'].len() == 3);
            assert(seq!['A', 'U', 'X'].len() == 3);
            assert(seq!['N', 'U', 'L'].len() == 3);
            assert(b.len() == name@.len());
        }
        return false;
    }
    let x: char = upper(name[0]);
    let y: char = upper(name[1]);
    let z: char = upper(name[2]);
    if name.len() == 3 {
        proof {
            assert(b =~= seq![x, y, z]);
            assert(b[0] == x && b[1] == y && b[2] == z);
            assert(seq!['C', 'O', 'N'][0] == 'C' && seq!['C', 'O', 'N'][1] == 'O' && seq![
                'C',
                'O',
                'N',
            ][2] == 'N');
            assert(seq!['P', 'R', 'N'][0] == 'P' && seq!['P', 'R', 'N'][1] == 'R' && seq![
                'P',
                'R',
                'N',
            ][2] == 'N');
            assert(seq!['A', 'U', 'X'][0] == 'A' && seq!['A', 'U', 'X'][1] == 'U' && seq![
                'A',
                'U',
                'X',
            ][2] == 'X');
            assert(seq!['N', 'U', 'L'][0] == 'N' && seq!['N', 'U', 'L'][1] == 'U' && seq![
                'N',
                'U',
                'L',
            ][2] == 'L');
        }
        (x == 'C' && y == 'O' && z == 'N') || (x == 'P' && y == 'R' && z == 'N') || (x == 'A' && y
            == 'U' && z == 'X') || (x == 'N' && y == 'U' && z == 'L')
    } else {
        let d: char = upper(name[3]);
        proof {
            assert(b.take(3) =~= seq![x, y, z]);
            assert(b.take(3)[0] == x && b.take(3)[1] == y && b.take(3)[2] == z);
            assert(seq!['C', 'O', 'M'][0] == 'C' && seq!['C', 'O', 'M'][1] == 'O' && seq![
                'C',
                'O',
                'M',
            ][2] == 'M');
            assert(seq!['L', 'P', 'T'][0] == 'L' && seq!['L', 'P', 'T'][1] == 'P' && seq![
                'L',
                'P',
                'T',
            ][2] == 'T');
        }
        ((x == 'C' && y == 'O' && z == 'M') || (x == 'L' && y == 'P' && z == 'T')) && '1' <= d && d
            <= '9'
    }
}

/// Capping a start that fits and is followed by a character that does not.
proof fn lemma_capped_take(s: Seq<char>, n: int, max: nat)
    requires
        0 <= n < s.len(),
        text_bytes(s.take(n)) <= max,
        text_bytes(s.take(n + 1)) > max,
    ensures
        capped(s, max) == s.take(n),
    decreases s.len(),
{
    lemma_bytes_grow(s, n + 1);
    assert(s.take(s.len() as int) =~= s);
    if n + 1 == s.len() {
        assert(s.drop_last() =~= s.take(n));
        assert(capped(s.take(n), max) == s.take(n));
    } else {
        assert(s.drop_last().take(n) =~= s.take(n));
        assert(s.drop_last().take(n + 1) =~= s.take(n + 1));
        lemma_capped_take(s.drop_last(), n, max);
    }
}

/// Makes text fit for use in a file name: no path separators, control
/// characters or other characters with a meaning to a shell or file system,
/// at most [`MAX_TARGET_BYTES`] bytes, not empty, no dot or space at the end,
/// and no Windows device name.
pub fn sanitize_filename(s: &str) -> (r: String)
    ensures
        r@ == file_name(s@),
{
    let chars: Vec<char> = chars_of(s);
    let ghost safe = safe_chars(s@);
    let mut kept: Vec<char> = Vec::new();
    let mut bytes: usize = 0;
    let mut i: usize = 0;
    let mut full: bool = false;
    proof {
        assert(safe.take(0) =~= Seq::empty());
    }
    while i < chars.len() && !full
        invariant
            i <= chars.len(),
            chars@ == s@,
            safe == safe_chars(s@),
            bytes <= MAX_TARGET_BYTES,
            !full ==> kept@ == safe.take(i as int) && bytes == text_bytes(kept@),
            full ==> kept@ == capped(safe, MAX_TARGET_BYTES as nat),
        decreases
                (chars.len() - i) + (if full {
                    0int
                } else {
                    1
                }),
    {
        let c: char = chars[i];
        let shown: char = if is_control(c) || c == '/' || c == '\\' || c == ':' || c == '*' || c
            == '?' || c == '"' || c == '<' || c == '>' || c == '|' {
            '_'
        } else {
            c
        };
        let size: usize = char_len(shown);
        proof {
            assert(safe.take(i + 1).drop_last() =~= safe.take(i as int));
            assert(safe.take(i + 1).last() == shown);
        }
        if bytes + size > MAX_TARGET_BYTES {
            full = true;
            proof {
                lemma_capped_take(safe, i as int, MAX_TARGET_BYTES as nat);
            }
        } else {
            kept.push(shown);
            assert(kept@ =~= safe.take(i + 1));
            bytes = bytes + size;
            i = i + 1;
        }
    }
    proof {
        assert(safe.take(safe.len() as int) =~= safe);
        assert(kept@ == capped(safe, MAX_TARGET_BYTES as nat));
    }
    let ghost short = kept@;
    while kept.len() > 0 && (kept[kept.len() - 1] == ' ' || kept[kept.len() - 1] == '.')
        invariant
            without_tail(kept@) == without_tail(short),
        decreases kept.len(),
    {
        kept.pop();
    }
    if kept.len() == 0 {
        let one: String = copy_of("_");
        proof {
            reveal_strlit("_");
            assert("_"@ =~= seq!['_']);
        }
        return one;
    }
    let base: Vec<char> = nth_field(&kept, '.', 0).unwrap();
    if device(&base) {
        let mut out: String = String::new();
        out.push('_');
        let text: String = string_of(&kept);
        push_text(&mut out, text.as_str());
        assert(out@ =~= seq!['_'] + kept@);
        return out;
    }
    string_of(&kept)
}

/// The name of the file that a session is saved in.
pub fn export_file_name(session: &Session) -> (r: String)
    requires
        has_date(session.started_at),
    ensures
        r@ == "ttl-"@ + file_name(session.target.original@) + "-"@ + utc_text(
            session.started_at,
            COMPACT@,
        ) + ".json"@,
{
    let mut out: String = copy_of("ttl-");
    let target: String = sanitize_filename(session.target.original.as_str());
    push_text(&mut out, target.as_str());
    push_text(&mut out, "-");
    let stamp: String = format_utc(session.started_at, COMPACT);
    push_text(&mut out, stamp.as_str());
    push_text(&mut out, ".json");
    out
}

/// A start of text keeps what holds of all its characters and its bytes.
proof fn lemma_capped(s: Seq<char>, max: nat)
    ensures
        text_bytes(capped(s, max)) <= max,
        capped(s, max).len() <= s.len(),
        capped(s, max) == s.take(capped(s, max).len() as int),
    decreases s.len(),
{
    if s.len() == 0 || text_bytes(s) <= max {
        assert(s.take(s.len() as int) =~= s);
    } else {
        lemma_capped(s.drop_last(), max);
        let n = capped(s, max).len() as int;
        assert(s.drop_last().take(n) =~= s.take(n));
    }
}

/// What is left without the tail is a start that ends in neither a dot nor a
/// space.
proof fn lemma_without_tail(s: Seq<char>)
    ensures
        without_tail(s).len() <= s.len(),
        without_tail(s) == s.take(without_tail(s).len() as int),
        without_tail(s).len() > 0 ==> without_tail(s).last() != ' ' && without_tail(s).last()
            != '.',
    decreases s.len(),
{
    if s.len() > 0 && (s.last() == ' ' || s.last() == '.') {
        lemma_without_tail(s.drop_last());
        let n = without_tail(s).len() as int;
        assert(s.drop_last().take(n) =~= s.take(n));
    } else {
        assert(s.take(s.len() as int) =~= s);
    }
}

/// Whatever the text, what is made of it is fit for a file name: not empty,
/// at most one byte over the cap, free of unsafe characters, with neither a
/// dot nor a space at its end, and no device name.
pub proof fn law_file_name_is_safe(s: Seq<char>)
    ensures
        file_name(s).len() > 0,
        text_bytes(file_name(s)) <= MAX_TARGET_BYTES + 1,
        forall|i: int|
            0 <= i < file_name(s).len() ==> !is_unsafe_char(#[trigger] file_name(s)[i]),
        file_name(s).last() != ' ',
        file_name(s).last() != '.',
        !is_device(base_name(file_name(s))),
{
    let safe = safe_chars(s);
    let short = capped(safe, MAX_TARGET_BYTES as nat);
    let kept = without_tail(short);
    lemma_capped(safe, MAX_TARGET_BYTES as nat);
    lemma_without_tail(short);
    lemma_bytes_grow(short, kept.len() as int);
    assert forall|i: int| 0 <= i < kept.len() implies !is_unsafe_char(#[trigger] kept[i]) by {
        assert(kept[i] == short[i]);
        assert(short[i] == safe[i]);
    }
    if kept.len() == 0 {
        assert(seq!['_'] + kept =~= seq!['_']);
        lemma_bytes_front('_', kept);
        lemma_first_of(seq!['_'], '.');
        assert(base_name(seq!['_']).len() <= 1);
        lemma_not_device(base_name(seq!['_']));
    } else if is_device(base_name(kept)) {
        lemma_bytes_front('_', kept);
        let out = seq!['_'] + kept;
        lemma_first_of(out, '.');
        assert(out[0] == '_');
        assert(first_of(out, '.') > 0);
        let base = base_name(out);
        assert(base[0] == '_');
        lemma_not_device(base);
    }
}

/// A name that is too short or starts with an underscore is no device.
proof fn lemma_not_device(name: Seq<char>)
    requires
        name.len() <= 1 || name[0] == '_',
    ensures
        !is_device(name),
{
    let b = upper_case(name);
    if name.len() > 1 {
        assert(b[0] == '_');
        assert(seq!['C', 'O', 'N'][0] == 'C');
        assert(seq!['P', 'R', 'N'][0] == 'P');
        assert(seq!['A', 'U', 'X'][0] == 'A');
        assert(seq!['N', 'U', 'L'][0] == 'N');
        if b.len() == 4 {
            assert(b.take(3)[0] == '_');
            assert(seq!['C', 'O', 'M'][0] == 'C');
            assert(seq!['L', 'P', 'T'][0] == 'L');
        }
    } else {
        assert(b.len() <= 1);
    }
}

/// A name that can be a file name as it is stays as it is; characters that
/// have no place in one are replaced one by one.
pub proof fn law_good_names_kept(s: &str, r: String)
    requires
        call_ensures(sanitize_filename, (s,), r),
        0 < text_bytes(s@) <= 200,
        s@.len() > 0,
        s@.last() != ' ' && s@.last() != '.',
        !is_device(base_name(safe_chars(s@))),
    ensures
        text_bytes(safe_chars(s@)) <= 200 ==> r@.len() == s@.len() && forall|i: int|
            0 <= i < s@.len() ==> #[trigger] r@[i] == (if s@[i] == '/' || s@[i] == '\\' || s@[i]
                == ':' || s@[i] == '*' || s@[i] == '?' || s@[i] == '"' || s@[i] == '<' || s@[i]
                == '>' || s@[i] == '|' || s@[i] <= '\u{1f}' || '\u{7f}' <= s@[i] <= '\u{9f}' {
                '_'
            } else {
                s@[i]
            }),
{
    assert forall|i: int| 0 <= i < s@.len() implies (is_control_char(#[trigger] s@[i]) <==> s@[i]
        <= '\u{1f}' || '\u{7f}' <= s@[i] <= '\u{9f}') by {
        lemma_control_codes(s@[i]);
    }
    let safe = safe_chars(s@);
    assert(safe.last() == safe[s@.len() - 1]);
}

/// The control codes.
proof fn lemma_control_codes(c: char)
    ensures
        is_control_char(c) <==> c <= '\u{1f}' || '\u{7f}' <= c <= '\u{9f}',
{
}

/// A session is kept in a file that names its target and its start.
pub proof fn law_file_named_after_target(session: &Session, r: String)
    requires
        call_ensures(export_file_name, (session,), r),
    ensures
        r@ == "ttl-"@ + file_name(session.target.original@) + "-"@ + utc_text(
            session.started_at,
            "%Y%m%d-%H%M%S"@,
        ) + ".json"@,
{
}

} // verus!
