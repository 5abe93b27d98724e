//! Text as sequences of characters.

use vstd::prelude::*;

verus! {

/// `String::push`: appends one character.
pub assume_specification[ String::push ](s: &mut String, c: char)
    ensures
        final(s)@ == old(s)@.push(c),
;

/// The characters of a string.
pub fn chars_of(s: &str) -> (r: Vec<char>)
    ensures
        r@ == s@,
{
    let mut out: Vec<char> = Vec::new();
    for c in it: s.chars()
        invariant
            out@ =~= s@.take(it.index()),
            it.seq() == s@,
    {
        out.push(c);
    }
    assert(s@.take(s@.len() as int) =~= s@);
    out
}

/// The string of these characters.
pub fn string_of(chars: &Vec<char>) -> (r: String)
    ensures
        r@ == chars@,
{
    let mut out: String = String::new();
    let mut i: usize = 0;
    while i < chars.len()
        invariant
            i <= chars.len(),
            out@ =~= chars@.take(i as int),
        decreases chars.len() - i,
    {
        out.push(chars[i]);
        i = i + 1;
    }
    assert(chars@.take(chars@.len() as int) =~= chars@);
    out
}

/// A copy of a string.
pub fn copy_of(s: &str) -> (r: String)
    ensures
        r@ == s@,
{
    String::from_str(s)
}

/// An optional string by its characters.
pub open spec fn opt_text(s: Option<String>) -> Option<Seq<char>> {
    match s {
        Some(t) => Some(t@),
        None => None,
    }
}

/// A copy of an optional string.
pub fn copy_opt(s: &Option<String>) -> (r: Option<String>)
    ensures
        opt_text(r) == opt_text(*s),
{
    match s {
        Some(t) => Some(copy_of(t.as_str())),
        None => None,
    }
}

/// Strings by their characters.
pub open spec fn texts(v: Seq<String>) -> Seq<Seq<char>> {
    Seq::new(v.len(), |i: int| v[i]@)
}

/// The decimal digit for a number below ten.
pub open spec fn digit_char(d: nat) -> char {
    if d == 0 {
        '0'
    } else if d == 1 {
        '1'
    } else if d == 2 {
        '2'
    } else if d == 3 {
        '3'
    } else if d == 4 {
        '4'
    } else if d == 5 {
        '5'
    } else if d == 6 {
        '6'
    } else if d == 7 {
        '7'
    } else if d == 8 {
        '8'
    } else {
        '9'
    }
}

/// A number in decimal, without leading zeros.
pub open spec fn decimal(n: nat) -> Seq<char>
    decreases n,
{
    if n < 10 {
        seq![digit_char(n)]
    } else {
        decimal(n / 10).push(digit_char(n % 10))
    }
}

/// The decimal digit for a number below ten.
pub fn digit(d: u64) -> (r: char)
    requires
        d < 10,
    ensures
        r == digit_char(d as nat),
{
    if d == 0 {
        '0'
    } else if d == 1 {
        '1'
    } else if d == 2 {
        '2'
    } else if d == 3 {
        '3'
    } else if d == 4 {
        '4'
    } else if d == 5 {
        '5'
    } else if d == 6 {
        '6'
    } else if d == 7 {
        '7'
    } else if d == 8 {
        '8'
    } else {
        '9'
    }
}

/// Appends a number in decimal.
pub fn push_decimal(out: &mut String, n: u64)
    ensures
        final(out)@ == old(out)@ + decimal(n as nat),
    decreases n,
{
    let ghost start = out@;
    if n >= 10 {
        push_decimal(out, n / 10);
        assert(out@ == start + decimal(n as nat / 10));
        out.push(digit(n % 10));
        assert(out@ =~= start + decimal(n as nat));
    } else {
        out.push(digit(n));
        assert(out@ =~= start + decimal(n as nat));
    }
}

/// A number in decimal.
pub fn decimal_string(n: u64) -> (r: String)
    ensures
        r@ == decimal(n as nat),
{
    let mut out: String = String::new();
    push_decimal(&mut out, n);
    assert(out@ =~= decimal(n as nat));
    out
}

/// `n` copies of a character.
pub open spec fn repeated(c: char, n: nat) -> Seq<char> {
    Seq::new(n, |i: int| c)
}

/// Spaces that bring `text` up to `width` characters.
pub open spec fn fill(len: nat, width: nat) -> Seq<char> {
    repeated(
        ' ',
        if len < width {
            (width - len) as nat
        } else {
            0
        },
    )
}

/// Text padded with spaces on the right to `width` characters.
pub open spec fn left_aligned(text: Seq<char>, width: nat) -> Seq<char> {
    text + fill(text.len(), width)
}

/// Text padded with spaces on the left to `width` characters.
pub open spec fn right_aligned(text: Seq<char>, width: nat) -> Seq<char> {
    fill(text.len(), width) + text
}

/// Appends `n` copies of a character.
pub fn push_repeated(out: &mut String, c: char, n: usize)
    ensures
        final(out)@ == old(out)@ + repeated(c, n as nat),
{
    let ghost start = out@;
    let mut i: usize = 0;
    while i < n
        invariant
            i <= n,
            out@ =~= start + repeated(c, i as nat),
        decreases n - i,
    {
        out.push(c);
        i = i + 1;
    }
}

/// Appends text padded on the right to `width` characters.
pub fn push_left_aligned(out: &mut String, text: &str, width: usize)
    ensures
        final(out)@ == old(out)@ + left_aligned(text@, width as nat),
{
    push_text(out, text);
    let n: usize = char_count(text);
    let ghost mid = out@;
    if n < width {
        push_repeated(out, ' ', width - n);
    }
    assert(out@ =~= old(out)@ + left_aligned(text@, width as nat));
}

/// Appends text padded on the left to `width` characters.
pub fn push_right_aligned(out: &mut String, text: &str, width: usize)
    ensures
        final(out)@ == old(out)@ + right_aligned(text@, width as nat),
{
    let n: usize = char_count(text);
    if n < width {
        push_repeated(out, ' ', width - n);
    }
    push_text(out, text);
    assert(out@ =~= old(out)@ + right_aligned(text@, width as nat));
}

/// Appends text.
pub fn push_text(out: &mut String, text: &str)
    ensures
        final(out)@ == old(out)@ + text@,
{
    out.append(text);
}

/// The number of characters of a string.
pub fn char_count(s: &str) -> (r: usize)
    ensures
        r == s@.len(),
{
    vstd::string::StrSliceExecFns::unicode_len(s)
}

/// Whether two texts are the same.
pub fn same_text(a: &str, b: &str) -> (r: bool)
    ensures
        r == (a@ == b@),
{
    let x: Vec<char> = chars_of(a);
    let y: Vec<char> = chars_of(b);
    if x.len() != y.len() {
        return false;
    }
    let mut i: usize = 0;
    while i < x.len()
        invariant
            i <= x.len(),
            x.len() == y.len(),
            x@ == a@,
            y@ == b@,
            forall|j: int| 0 <= j < i ==> x@[j] == y@[j],
        decreases x.len() - i,
    {
        if x[i] != y[i] {
            return false;
        }
        i = i + 1;
    }
    assert(x@ =~= y@);
    true
}

/// Whether a character is a control code (Unicode category Cc).
pub open spec fn is_control_char(c: char) -> bool {
    c as u32 <= 0x1F || 0x7F <= c as u32 <= 0x9F
}

/// Whether a character is a control code (Unicode category Cc).
pub fn is_control(c: char) -> (r: bool)
    ensures
        r == is_control_char(c),
{
    let code: u32 = c as u32;
    code <= 0x1F || (0x7F <= code && code <= 0x9F)
}

/// Text in which each `c` is replaced by `with`.
pub open spec fn replaced(s: Seq<char>, c: char, with: Seq<char>) -> Seq<char>
    decreases s.len(),
{
    if s.len() == 0 {
        s
    } else if s.last() == c {
        replaced(s.drop_last(), c, with) + with
    } else {
        replaced(s.drop_last(), c, with).push(s.last())
    }
}

/// Replaces each `c` by `with`.
pub fn replace_char(s: &str, c: char, with: &str) -> (r: String)
    ensures
        r@ == replaced(s@, c, with@),
{
    let chars: Vec<char> = chars_of(s);
    let mut out: String = String::new();
    let mut i: usize = 0;
    proof {
        assert(chars@.take(0) =~= Seq::empty());
        assert(out@ =~= Seq::empty());
    }
    while i < chars.len()
        invariant
            i <= chars.len(),
            out@ == replaced(chars@.take(i as int), c, with@),
        decreases chars.len() - i,
    {
        assert(chars@.take(i + 1).drop_last() =~= chars@.take(i as int));
        if chars[i] == c {
            push_text(&mut out, with);
        } else {
            out.push(chars[i]);
        }
        i = i + 1;
    }
    assert(chars@.take(chars@.len() as int) =~= chars@);
    out
}

/// Texts one after the other, with `sep` between neighbours.
pub open spec fn joined(parts: Seq<Seq<char>>, sep: Seq<char>) -> Seq<char>
    decreases parts.len(),
{
    if parts.len() == 0 {
        Seq::empty()
    } else if parts.len() == 1 {
        parts[0]
    } else {
        parts[0] + sep + joined(parts.skip(1), sep)
    }
}

/// Joins texts with `sep` between neighbours.
pub fn join(parts: &Vec<String>, sep: &str) -> (r: String)
    ensures
        r@ == joined(texts(parts@), sep@),
{
    let ghost all = texts(parts@);
    if parts.len() == 0 {
        let none: String = String::new();
        assert(none@ =~= Seq::empty());
        return none;
    }
    let mut out: String = copy_of(parts[0].as_str());
    let mut i: usize = 1;
    proof {
        assert(all.skip(0) =~= all);
        assert(joined(all, sep@) =~= out@ + joined_rest(all.skip(1), sep@));
    }
    while i < parts.len()
        invariant
            1 <= i <= parts.len(),
            all == texts(parts@),
            joined(all, sep@) == out@ + joined_rest(all.skip(i as int), sep@),
        decreases parts.len() - i,
    {
        let ghost before = out@;
        let ghost rest = all.skip(i as int);
        push_text(&mut out, sep);
        push_text(&mut out, parts[i].as_str());
        proof {
            assert(rest.skip(1) =~= all.skip(i + 1));
            assert(rest[0] == parts@[i as int]@);
            assert(before + joined_rest(rest, sep@) =~= out@ + joined_rest(rest.skip(1), sep@));
        }
        i = i + 1;
    }
    assert(out@ + joined_rest(all.skip(i as int), sep@) =~= out@);
    out
}

/// Further texts, each with `sep` before it.
pub open spec fn joined_rest(parts: Seq<Seq<char>>, sep: Seq<char>) -> Seq<char> {
    if parts.len() == 0 {
        Seq::empty()
    } else {
        sep + joined(parts, sep)
    }
}

/// Appends a copy of a text.
pub fn push_copy(list: &mut Vec<String>, s: &str)
    ensures
        texts(final(list)@) == texts(old(list)@).push(s@),
{
    let ghost before = texts(list@);
    list.push(copy_of(s));
    assert(texts(list@) =~= before.push(s@));
}

/// Copies of texts, from a place on.
pub fn copies_from(list: &Vec<String>, from: usize) -> (r: Vec<String>)
    requires
        from <= list@.len(),
    ensures
        texts(r@) == texts(list@).skip(from as int),
{
    let ghost all = texts(list@);
    let mut out: Vec<String> = Vec::new();
    let mut i: usize = from;
    assert(texts(out@) =~= all.subrange(from as int, i as int));
    while i < list.len()
        invariant
            from <= i <= list@.len(),
            all == texts(list@),
            texts(out@) == all.subrange(from as int, i as int),
        decreases list@.len() - i,
    {
        push_copy(&mut out, list[i].as_str());
        assert(texts(out@) =~= all.subrange(from as int, i + 1));
        i = i + 1;
    }
    assert(all.subrange(from as int, i as int) =~= all.skip(from as int));
    out
}

/// Whether `c` occurs in text.
pub fn contains_char(s: &str, c: char) -> (r: bool)
    ensures
        r == s@.contains(c),
{
    let chars: Vec<char> = chars_of(s);
    let mut i: usize = 0;
    while i < chars.len()
        invariant
            i <= chars.len(),
            chars@ == s@,
            forall|j: int| 0 <= j < i ==> chars@[j] != c,
        decreases chars.len() - i,
    {
        if chars[i] == c {
            return true;
        }
        i = i + 1;
    }
    false
}

/// The bytes of a character in UTF-8.
pub open spec fn char_bytes(c: char) -> nat {
    if c as u32 <= 0x7F {
        1
    } else if c as u32 <= 0x7FF {
        2
    } else if c as u32 <= 0xFFFF {
        3
    } else {
        4
    }
}

/// The bytes of text in UTF-8.
pub open spec fn text_bytes(s: Seq<char>) -> nat
    decreases s.len(),
{
    if s.len() == 0 {
        0
    } else {
        text_bytes(s.drop_last()) + char_bytes(s.last())
    }
}

/// The bytes of a character in UTF-8.
pub fn char_len(c: char) -> (r: usize)
    ensures
        r == char_bytes(c),
        1 <= r <= 4,
{
    let code: u32 = c as u32;
    if code <= 0x7F {
        1
    } else if code <= 0x7FF {
        2
    } else if code <= 0xFFFF {
        3
    } else {
        4
    }
}

/// A character in front adds its bytes.
pub proof fn lemma_bytes_front(c: char, s: Seq<char>)
    ensures
        text_bytes(seq![c] + s) == char_bytes(c) + text_bytes(s),
    decreases s.len(),
{
    let t = seq![c] + s;
    if s.len() == 0 {
        assert(t.drop_last() =~= Seq::empty());
        assert(t.last() == c);
        assert(text_bytes(Seq::empty()) == 0);
    } else {
        assert(t.drop_last() =~= seq![c] + s.drop_last());
        lemma_bytes_front(c, s.drop_last());
    }
}

/// The bytes of a character are those of its encoding.
proof fn lemma_char_bytes(c: char)
    ensures
        vstd::utf8::encode_scalar(c as u32).len() == char_bytes(c),
{
}

/// The bytes counted character by character are those of the encoding.
pub proof fn lemma_encoded_len(s: Seq<char>)
    ensures
        vstd::utf8::encode_utf8(s).len() == text_bytes(s),
    decreases s.len(),
{
    if s.len() > 0 {
        let rest = s.drop_first();
        lemma_encoded_len(rest);
        lemma_bytes_front(s[0], rest);
        lemma_char_bytes(s[0]);
        assert(seq![s[0]] + rest =~= s);
    }
}

/// The bytes of text in UTF-8.
pub fn byte_len(s: &str) -> (r: usize)
    ensures
        r == text_bytes(s@),
{
    proof {
        lemma_encoded_len(s@);
    }
    s.as_bytes().len()
}

/// A start has no more bytes than the whole.
pub proof fn lemma_bytes_grow(s: Seq<char>, n: int)
    requires
        0 <= n <= s.len(),
    ensures
        text_bytes(s.take(n)) <= text_bytes(s),
    decreases s.len(),
{
    if n == s.len() {
        assert(s.take(n) =~= s);
    } else {
        assert(s.drop_last().take(n) =~= s.take(n));
        lemma_bytes_grow(s.drop_last(), n);
    }
}

/// Whether text occurs in text.
pub open spec fn occurs(part: Seq<char>, s: Seq<char>) -> bool {
    exists|i: int| 0 <= i <= s.len() - part.len() && #[trigger] s.subrange(i, i + part.len()) == part
}

/// Whether `part` stands at a place of `s`.
fn stands_at(part: &Vec<char>, s: &Vec<char>, at: usize) -> (r: bool)
    requires
        at + part@.len() <= s@.len(),
    ensures
        r == (s@.subrange(at as int, at + part@.len()) == part@),
{
    let mut i: usize = 0;
    while i < part.len()
        invariant
            i <= part.len(),
            at + part@.len() <= s@.len(),
            forall|j: int| 0 <= j < i ==> s@[at + j] == part@[j],
        decreases part.len() - i,
    {
        assert(at + i < s.len());
        if s[at + i] != part[i] {
            assert(s@.subrange(at as int, at + part@.len())[i as int] == s@[at + i]);
            return false;
        }
        i = i + 1;
    }
    assert(s@.subrange(at as int, at + part@.len()) =~= part@);
    true
}

/// Whether text occurs in text.
pub fn contains_text(s: &str, part: &str) -> (r: bool)
    ensures
        r == occurs(part@, s@),
{
    let whole: Vec<char> = chars_of(s);
    let piece: Vec<char> = chars_of(part);
    if piece.len() > whole.len() {
        return false;
    }
    let last: usize = whole.len() - piece.len();
    let mut i: usize = 0;
    while i < last
        invariant
            i <= last,
            last == whole@.len() - piece@.len(),
            whole@ == s@,
            piece@ == part@,
            forall|j: int|
                0 <= j < i ==> #[trigger] s@.subrange(j, j + part@.len()) != part@,
        decreases last - i,
    {
        if stands_at(&piece, &whole, i) {
            return true;
        }
        i = i + 1;
    }
    stands_at(&piece, &whole, last)
}

/// `str::from_utf8`: the text that bytes encode, if they are valid UTF-8.
#[verifier::external_body]
pub(crate) fn utf8_text(bytes: &[u8]) -> (r: Option<String>)
    ensures
        r is Some <==> vstd::utf8::valid_utf8(bytes@),
        r is Some ==> r->0@ == vstd::utf8::decode_utf8(bytes@),
{
    std::str::from_utf8(bytes).ok().map(String::from)
}

/// What `String::from_utf8_lossy` makes of bytes.
pub uninterp spec fn lossy_text(bytes: Seq<u8>) -> Seq<char>;

/// `String::from_utf8_lossy`: the text that bytes encode, with replacement
/// characters for what is not valid UTF-8. Where it puts those is not stated.
#[verifier::external_body]
pub(crate) fn utf8_lossy(bytes: &[u8]) -> (r: String)
    ensures
        r@ == lossy_text(bytes@),
        vstd::utf8::valid_utf8(bytes@) ==> r@ == vstd::utf8::decode_utf8(bytes@),
{
    String::from_utf8_lossy(bytes).into_owned()
}

/// The value of a digit, decimal or lower-case hexadecimal.
pub open spec fn digit_value(c: char) -> int {
    if '0' <= c <= '9' {
        c as int - '0' as int
    } else {
        c as int - 'a' as int + 10
    }
}

/// The number that decimal digits stand for, the most significant first.
pub open spec fn number_of(digits: Seq<char>) -> int
    decreases digits.len(),
{
    if digits.len() == 0 {
        0
    } else {
        number_of(digits.drop_last()) * 10 + digit_value(digits.last())
    }
}

/// A number in decimal is made of decimal digits, does not start with a zero
/// unless it is zero, and is read back as the number.
pub proof fn law_decimal_read_back(n: nat)
    ensures
        number_of(decimal(n)) == n,
        decimal(n).len() > 0,
        forall|i: int| 0 <= i < decimal(n).len() ==> '0' <= #[trigger] decimal(n)[i] <= '9',
        decimal(n)[0] == '0' ==> n == 0 && decimal(n).len() == 1,
    decreases n,
{
    reveal_with_fuel(number_of, 2);
    if n >= 10 {
        law_decimal_read_back(n / 10);
        assert(decimal(n).drop_last() =~= decimal(n / 10));
        assert(decimal(n)[0] == decimal(n / 10)[0]);
    } else {
        assert(decimal(n).drop_last() =~= Seq::empty());
    }
}

/// Text that is brought up to a width stands at the start, or at the end, of
/// a field of that width, and nothing but spaces fills the rest. Text that is
/// too wide is not cut.
pub proof fn law_aligned_in_fields(
    left: &mut String,
    right: &mut String,
    text: &str,
    width: usize,
    l: Seq<char>,
    r: Seq<char>,
)
    requires
        call_ensures(push_left_aligned, (left, text, width), ()),
        call_ensures(push_right_aligned, (right, text, width), ()),
        final(left)@ == old(left)@ + l,
        final(right)@ == old(right)@ + r,
    ensures
        text@.len() >= width ==> l == text@ && r == text@,
        text@.len() < width ==> {
            &&& l.len() == width && r.len() == width
            &&& l.take(text@.len() as int) == text@
            &&& r.skip(width - text@.len()) == text@
            &&& forall|i: int| text@.len() <= i < width ==> #[trigger] l[i] == ' '
            &&& forall|i: int| 0 <= i < width - text@.len() ==> #[trigger] r[i] == ' '
        },
{
    let a = left_aligned(text@, width as nat);
    let b = right_aligned(text@, width as nat);
    assert(l =~= a) by {
        assert((old(left)@ + l).skip(old(left)@.len() as int) =~= l);
        assert((old(left)@ + a).skip(old(left)@.len() as int) =~= a);
    }
    assert(r =~= b) by {
        assert((old(right)@ + r).skip(old(right)@.len() as int) =~= r);
        assert((old(right)@ + b).skip(old(right)@.len() as int) =~= b);
    }
    assert(a.take(text@.len() as int) =~= text@);
    if text@.len() < width {
        assert(b.skip(width - text@.len()) =~= text@);
    } else {
        assert(a =~= text@);
        assert(b =~= text@);
    }
}

/// Joined texts are there one after the other, with what separates them.
pub proof fn law_joined_in_order(parts: Seq<Seq<char>>, sep: Seq<char>)
    requires
        parts.len() > 1,
    ensures
        joined(parts, sep) == joined(parts.drop_last(), sep) + sep + parts.last(),
    decreases parts.len(),
{
    reveal_with_fuel(joined, 2);
    if parts.len() == 2 {
        assert(parts.drop_last()[0] == parts[0]);
        assert(parts.skip(1)[0] == parts[1]);
        assert(joined(parts, sep) =~= parts[0] + sep + parts[1]);
    } else {
        let rest = parts.skip(1);
        law_joined_in_order(rest, sep);
        assert(rest.drop_last() =~= parts.drop_last().skip(1));
        assert(joined(parts, sep) =~= joined(parts.drop_last(), sep) + sep + parts.last());
    }
}

/// The bytes of characters are those of their encoding.
pub proof fn law_bytes_of_text(s: &str, n: usize, count: usize, c: char, len: usize)
    requires
        call_ensures(byte_len, (s,), n),
        call_ensures(char_count, (s,), count),
        call_ensures(char_len, (c,), len),
    ensures
        n == vstd::utf8::encode_utf8(s@).len(),
        count == s@.len(),
        len == vstd::utf8::encode_scalar(c as u32).len(),
{
    lemma_encoded_len(s@);
    lemma_char_bytes(c);
}

/// Control codes are those below the space, the delete character and the 32
/// codes behind it.
pub proof fn law_control_codes(c: char, r: bool)
    requires
        call_ensures(is_control, (c,), r),
    ensures
        r <==> c < ' ' || '\u{7f}' <= c <= '\u{9f}',
{
}

/// Texts are the same if they have the same characters, and a text holds a
/// character or another text if it stands somewhere in it.
pub proof fn law_texts_compared(
    a: &str,
    b: &str,
    c: char,
    same: bool,
    has: bool,
    holds: bool,
    front: Seq<char>,
    back: Seq<char>,
)
    requires
        call_ensures(same_text, (a, b), same),
        call_ensures(contains_char, (a, c), has),
        call_ensures(contains_text, (a, b), holds),
    ensures
        same <==> a@ == b@,
        has <==> exists|i: int| 0 <= i < a@.len() && a@[i] == c,
        a@ == front + b@ + back ==> holds,
        holds ==> b@.len() <= a@.len(),
{
    if a@ == front + b@ + back {
        let i = front.len() as int;
        assert(a@.subrange(i, i + b@.len()) =~= b@);
    }
}

/// Where a character is replaced, every other one stays.
pub proof fn law_replaced_one_by_one(s: &str, c: char, with: &str, r: String)
    requires
        call_ensures(replace_char, (s, c, with), r),
    ensures
        with@.len() == 1 ==> r@ == s@.map_values(
            |x: char|
                if x == c {
                    with@[0]
                } else {
                    x
                },
        ),
        !s@.contains(c) ==> r@ == s@,
{
    if with@.len() == 1 {
        lemma_replaced_map(s@, c, with@);
    }
    if !s@.contains(c) {
        lemma_nothing_replaced(s@, c, with@);
    }
}

/// Replacing by one character is mapping.
proof fn lemma_replaced_map(s: Seq<char>, c: char, with: Seq<char>)
    requires
        with.len() == 1,
    ensures
        replaced(s, c, with) == s.map_values(
            |x: char|
                if x == c {
                    with[0]
                } else {
                    x
                },
        ),
    decreases s.len(),
{
    let f = |x: char|
        if x == c {
            with[0]
        } else {
            x
        };
    if s.len() > 0 {
        lemma_replaced_map(s.drop_last(), c, with);
        assert(s.map_values(f) =~= s.drop_last().map_values(f).push(f(s.last())));
        assert(with =~= seq![with[0]]);
    } else {
        assert(s.map_values(f) =~= s);
    }
}

/// Nothing is replaced where there is nothing to replace.
proof fn lemma_nothing_replaced(s: Seq<char>, c: char, with: Seq<char>)
    requires
        !s.contains(c),
    ensures
        replaced(s, c, with) == s,
    decreases s.len(),
{
    if s.len() > 0 {
        assert(s[s.len() - 1] != c);
        assert forall|i: int| 0 <= i < s.drop_last().len() implies s.drop_last()[i] != c by {
            assert(s[i] != c);
        }
        lemma_nothing_replaced(s.drop_last(), c, with);
        assert(s.drop_last().push(s.last()) =~= s);
    }
}

/// A number in decimal is appended to what is there.
pub proof fn law_decimal_appended(out: &mut String, n: u64, s: String)
    requires
        call_ensures(push_decimal, (out, n), ()),
        call_ensures(decimal_string, (n,), s),
    ensures
        final(out)@ == old(out)@ + s@,
        number_of(s@) == n,
{
    law_decimal_read_back(n as nat);
}

} // verus!
