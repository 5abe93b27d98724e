//! Cutting text into pieces and reading numbers out of it.

use vstd::prelude::*;

verus! {

/// Whether a character is white space (Unicode property White_Space).
pub open spec fn is_space_char(c: char) -> bool {
    let n = c as u32;
    0x09 <= n <= 0x0D || n == 0x20 || n == 0x85 || n == 0xA0 || n == 0x1680 || 0x2000 <= n <= 0x200A
        || n == 0x2028 || n == 0x2029 || n == 0x202F || n == 0x205F || n == 0x3000
}

/// Whether a character is white space (Unicode property White_Space).
pub fn is_space(c: char) -> (r: bool)
    ensures
        r == is_space_char(c),
{
    let n: u32 = c as u32;
    (0x09 <= n && n <= 0x0D) || n == 0x20 || n == 0x85 || n == 0xA0 || n == 0x1680 || (0x2000 <= n
        && n <= 0x200A) || n == 0x2028 || n == 0x2029 || n == 0x202F || n == 0x205F || n == 0x3000
}

/// Text without leading white space.
pub open spec fn trimmed_start(s: Seq<char>) -> Seq<char>
    decreases s.len(),
{
    if s.len() > 0 && is_space_char(s[0]) {
        trimmed_start(s.skip(1))
    } else {
        s
    }
}

/// Text without trailing white space.
pub open spec fn trimmed_end(s: Seq<char>) -> Seq<char>
    decreases s.len(),
{
    if s.len() > 0 && is_space_char(s.last()) {
        trimmed_end(s.drop_last())
    } else {
        s
    }
}

/// Text without white space around it.
pub open spec fn trimmed(s: Seq<char>) -> Seq<char> {
    trimmed_end(trimmed_start(s))
}

/// Text without any leading `c`.
pub open spec fn stripped_start(s: Seq<char>, c: char) -> Seq<char>
    decreases s.len(),
{
    if s.len() > 0 && s[0] == c {
        stripped_start(s.skip(1), c)
    } else {
        s
    }
}

/// Text without any trailing `c`.
pub open spec fn stripped_end(s: Seq<char>, c: char) -> Seq<char>
    decreases s.len(),
{
    if s.len() > 0 && s.last() == c {
        stripped_end(s.drop_last(), c)
    } else {
        s
    }
}

/// A part of a vector of characters.
pub fn part(s: &Vec<char>, from: usize, to: usize) -> (r: Vec<char>)
    requires
        from <= to <= s@.len(),
    ensures
        r@ == s@.subrange(from as int, to as int),
{
    let mut out: Vec<char> = Vec::new();
    let mut i: usize = from;
    while i < to
        invariant
            from <= i <= to <= s@.len(),
            out@ =~= s@.subrange(from as int, i as int),
        decreases to - i,
    {
        out.push(s[i]);
        i = i + 1;
    }
    out
}

/// Removes white space around text.
pub fn trim(s: &Vec<char>) -> (r: Vec<char>)
    ensures
        r@ == trimmed(s@),
{
    let mut from: usize = 0;
    proof {
        assert(s@.skip(0) =~= s@);
    }
    while from < s.len() && is_space(s[from])
        invariant
            from <= s@.len(),
            trimmed_start(s@.skip(from as int)) == trimmed_start(s@),
        decreases s@.len() - from,
    {
        assert(s@.skip(from as int).skip(1) =~= s@.skip(from + 1));
        from = from + 1;
    }
    let mut to: usize = s.len();
    proof {
        assert(s@.skip(from as int) =~= s@.subrange(from as int, to as int));
    }
    while to > from && is_space(s[to - 1])
        invariant
            from <= to <= s@.len(),
            trimmed_end(s@.subrange(from as int, to as int)) == trimmed_end(trimmed_start(s@)),
        decreases to,
    {
        assert(s@.subrange(from as int, to as int).drop_last() =~= s@.subrange(
            from as int,
            to - 1,
        ));
        to = to - 1;
    }
    part(s, from, to)
}

/// Removes every `c` from the start of text.
pub fn strip_start(s: &Vec<char>, c: char) -> (r: Vec<char>)
    ensures
        r@ == stripped_start(s@, c),
{
    let mut from: usize = 0;
    proof {
        assert(s@.skip(0) =~= s@);
    }
    while from < s.len() && s[from] == c
        invariant
            from <= s@.len(),
            stripped_start(s@.skip(from as int), c) == stripped_start(s@, c),
        decreases s@.len() - from,
    {
        assert(s@.skip(from as int).skip(1) =~= s@.skip(from + 1));
        from = from + 1;
    }
    assert(s@.skip(from as int) =~= s@.subrange(from as int, s@.len() as int));
    part(s, from, s.len())
}

/// Removes every `c` from the end of text.
pub fn strip_end(s: &Vec<char>, c: char) -> (r: Vec<char>)
    ensures
        r@ == stripped_end(s@, c),
{
    let mut to: usize = s.len();
    proof {
        assert(s@.take(to as int) =~= s@);
    }
    while to > 0 && s[to - 1] == c
        invariant
            to <= s@.len(),
            stripped_end(s@.take(to as int), c) == stripped_end(s@, c),
        decreases to,
    {
        assert(s@.take(to as int).drop_last() =~= s@.take(to - 1));
        to = to - 1;
    }
    assert(s@.take(to as int) =~= s@.subrange(0, to as int));
    part(s, 0, to)
}

/// Text without leading occurrences of the two-character word `a`, `b`.
pub open spec fn stripped_word(s: Seq<char>, a: char, b: char) -> Seq<char>
    decreases s.len(),
{
    if s.len() >= 2 && s[0] == a && s[1] == b {
        stripped_word(s.skip(2), a, b)
    } else {
        s
    }
}

/// Removes leading occurrences of a two-character word.
pub fn strip_word(s: &Vec<char>, a: char, b: char) -> (r: Vec<char>)
    ensures
        r@ == stripped_word(s@, a, b),
{
    let mut from: usize = 0;
    proof {
        assert(s@.skip(0) =~= s@);
    }
    while s.len() - from >= 2 && s[from] == a && s[from + 1] == b
        invariant
            from <= s@.len(),
            stripped_word(s@.skip(from as int), a, b) == stripped_word(s@, a, b),
        decreases s@.len() - from,
    {
        assert(s@.skip(from as int).skip(2) =~= s@.skip(from + 2));
        from = from + 2;
    }
    assert(s@.skip(from as int) =~= s@.subrange(from as int, s@.len() as int));
    part(s, from, s.len())
}

/// Where `c` first occurs, or the length if it does not.
pub open spec fn first_of(s: Seq<char>, c: char) -> nat
    decreases s.len(),
{
    if s.len() == 0 || s[0] == c {
        0
    } else {
        1 + first_of(s.skip(1), c)
    }
}

/// Where `c` first occurs is a place, and `c` does not occur before it.
pub proof fn lemma_first_of(s: Seq<char>, c: char)
    ensures
        first_of(s, c) <= s.len(),
        first_of(s, c) < s.len() ==> s[first_of(s, c) as int] == c,
        forall|i: int| 0 <= i < first_of(s, c) ==> #[trigger] s[i] != c,
    decreases s.len(),
{
    if s.len() > 0 && s[0] != c {
        lemma_first_of(s.skip(1), c);
        assert forall|i: int| 0 <= i < first_of(s, c) implies #[trigger] s[i] != c by {
            if i > 0 {
                assert(s.skip(1)[i - 1] == s[i]);
            }
        }
    }
}

/// Field `n` (counted from zero) of text that `c` separates, if it has that
/// many fields.
pub open spec fn field(s: Seq<char>, c: char, n: nat) -> Option<Seq<char>>
    decreases n,
{
    let at = first_of(s, c);
    if n == 0 {
        Some(s.take(at as int))
    } else if at >= s.len() {
        None
    } else {
        field(s.skip(at as int + 1), c, (n - 1) as nat)
    }
}

/// Where `c` occurs from `from` on, or the length.
fn find_from(s: &Vec<char>, from: usize, c: char) -> (r: usize)
    requires
        from <= s@.len(),
    ensures
        from <= r <= s@.len(),
        r - from == first_of(s@.skip(from as int), c),
{
    let mut i: usize = from;
    while i < s.len() && s[i] != c
        invariant
            from <= i <= s@.len(),
            i - from + first_of(s@.skip(i as int), c) == first_of(s@.skip(from as int), c),
        decreases s@.len() - i,
    {
        assert(s@.skip(i as int).skip(1) =~= s@.skip(i + 1));
        i = i + 1;
    }
    i
}

/// Field `n` (counted from zero) of text that `c` separates.
pub fn nth_field(s: &Vec<char>, c: char, n: usize) -> (r: Option<Vec<char>>)
    ensures
        match field(s@, c, n as nat) {
            Some(f) => r is Some && r->0@ == f,
            None => r is None,
        },
{
    let mut from: usize = 0;
    let mut left: usize = n;
    proof {
        assert(s@.skip(0) =~= s@);
    }
    while left > 0
        invariant
            from <= s@.len(),
            field(s@.skip(from as int), c, left as nat) == field(s@, c, n as nat),
        decreases left,
    {
        let at: usize = find_from(s, from, c);
        if at == s.len() {
            return None;
        }
        assert(s@.skip(from as int).skip(at - from + 1) =~= s@.skip(at + 1));
        from = at + 1;
        left = left - 1;
    }
    let at: usize = find_from(s, from, c);
    assert(s@.skip(from as int).take(at - from) =~= s@.subrange(from as int, at as int));
    Some(part(s, from, at))
}

/// Whether a character is a decimal digit.
pub open spec fn is_digit_char(c: char) -> bool {
    0x30 <= c as u32 <= 0x39
}

/// The value of decimal digits.
pub open spec fn digits_value(s: Seq<char>) -> nat
    decreases s.len(),
{
    if s.len() == 0 {
        0
    } else {
        digits_value(s.drop_last()) * 10 + (s.last() as u32 - 0x30) as nat
    }
}

/// Whether text is one or more decimal digits.
pub open spec fn all_digits(s: Seq<char>) -> bool {
    s.len() > 0 && forall|i: int| 0 <= i < s.len() ==> is_digit_char(#[trigger] s[i])
}

/// The digits of a number text: a leading plus sign does not count.
pub open spec fn unsigned_digits(s: Seq<char>) -> Seq<char> {
    if s.len() > 0 && s[0] == '+' {
        s.skip(1)
    } else {
        s
    }
}

/// The number at most `max` that text denotes, if it denotes one.
pub open spec fn parsed_number(s: Seq<char>, max: nat) -> Option<nat> {
    let digits = unsigned_digits(s);
    if all_digits(digits) && digits_value(digits) <= max {
        Some(digits_value(digits))
    } else {
        None
    }
}

/// Longer digit strings have no smaller value.
proof fn lemma_digits_grow(s: Seq<char>, n: int)
    requires
        0 <= n <= s.len(),
        forall|i: int| 0 <= i < s.len() ==> is_digit_char(#[trigger] s[i]),
    ensures
        digits_value(s.take(n)) <= digits_value(s),
    decreases s.len() - n,
{
    if n == s.len() {
        assert(s.take(n) =~= s);
    } else {
        lemma_digits_grow(s, n + 1);
        assert(s.take(n + 1).drop_last() =~= s.take(n));
        assert(s.take(n + 1).last() == s[n]);
    }
}

/// Reads a number of at most `max`.
pub fn parse_number(s: &Vec<char>, max: u64) -> (r: Option<u64>)
    ensures
        match parsed_number(s@, max as nat) {
            Some(n) => r is Some && r->0 == n,
            None => r is None,
        },
{
    let start: usize = if s.len() > 0 && s[0] == '+' {
        1
    } else {
        0
    };
    let ghost digits = unsigned_digits(s@);
    proof {
        assert(digits =~= s@.skip(start as int));
    }
    if start == s.len() {
        return None;
    }
    let mut value: u64 = 0;
    let mut i: usize = start;
    while i < s.len()
        invariant
            start <= i <= s@.len(),
            digits == s@.skip(start as int),
            parsed_number(s@, max as nat) == (if all_digits(digits) && digits_value(digits) <= max {
                Some(digits_value(digits))
            } else {
                None
            }),
            value <= max,
            value == digits_value(digits.take(i - start)),
            forall|j: int| 0 <= j < i - start ==> is_digit_char(#[trigger] digits[j]),
        decreases s@.len() - i,
    {
        let code: u32 = s[i] as u32;
        assert(digits[i - start] == s@[i as int]);
        if code < 0x30 || code > 0x39 {
            return None;
        }
        let wide: u128 = value as u128 * 10 + (code - 0x30) as u128;
        proof {
            assert(digits.take(i + 1 - start).drop_last() =~= digits.take(i - start));
            assert(digits.take(i + 1 - start).last() == s@[i as int]);
            assert(wide == digits_value(digits.take(i + 1 - start)));
            if wide > max && all_digits(digits) {
                lemma_digits_grow(digits, i + 1 - start);
            }
        }
        if wide > max as u128 {
            return None;
        }
        value = wide as u64;
        i = i + 1;
    }
    assert(digits.take(digits.len() as int) =~= digits);
    Some(value)
}

/// Where white space first occurs, or the length if it does not.
pub open spec fn first_space(s: Seq<char>) -> nat
    decreases s.len(),
{
    if s.len() == 0 || is_space_char(s[0]) {
        0
    } else {
        1 + first_space(s.skip(1))
    }
}

/// Word `n` (counted from zero) of text that white space separates, if it has
/// that many words.
pub open spec fn word(s: Seq<char>, n: nat) -> Option<Seq<char>>
    decreases n,
{
    let t = trimmed_start(s);
    if t.len() == 0 {
        None
    } else if n == 0 {
        Some(t.take(first_space(t) as int))
    } else {
        word(t.skip(first_space(t) as int), (n - 1) as nat)
    }
}

/// Where the first character from `from` on is that is not white space.
fn skip_space(s: &Vec<char>, from: usize) -> (r: usize)
    requires
        from <= s@.len(),
    ensures
        from <= r <= s@.len(),
        s@.skip(r as int) == trimmed_start(s@.skip(from as int)),
{
    let mut i: usize = from;
    while i < s.len() && is_space(s[i])
        invariant
            from <= i <= s@.len(),
            trimmed_start(s@.skip(i as int)) == trimmed_start(s@.skip(from as int)),
        decreases s@.len() - i,
    {
        assert(s@.skip(i as int).skip(1) =~= s@.skip(i + 1));
        i = i + 1;
    }
    i
}

/// Where white space occurs from `from` on, or the length.
fn find_space(s: &Vec<char>, from: usize) -> (r: usize)
    requires
        from <= s@.len(),
    ensures
        from <= r <= s@.len(),
        r - from == first_space(s@.skip(from as int)),
{
    let mut i: usize = from;
    while i < s.len() && !is_space(s[i])
        invariant
            from <= i <= s@.len(),
            i - from + first_space(s@.skip(i as int)) == first_space(s@.skip(from as int)),
        decreases s@.len() - i,
    {
        assert(s@.skip(i as int).skip(1) =~= s@.skip(i + 1));
        i = i + 1;
    }
    i
}

/// Word `n` (counted from zero) of text that white space separates.
pub fn nth_word(s: &Vec<char>, n: usize) -> (r: Option<Vec<char>>)
    ensures
        match word(s@, n as nat) {
            Some(w) => r is Some && r->0@ == w,
            None => r is None,
        },
{
    let mut from: usize = 0;
    let mut left: usize = n;
    proof {
        assert(s@.skip(0) =~= s@);
    }
    while left > 0
        invariant
            from <= s@.len(),
            word(s@.skip(from as int), left as nat) == word(s@, n as nat),
        decreases left,
    {
        let start: usize = skip_space(s, from);
        if start == s.len() {
            return None;
        }
        let end: usize = find_space(s, start);
        assert(s@.skip(start as int).skip(end - start) =~= s@.skip(end as int));
        from = end;
        left = left - 1;
    }
    let start: usize = skip_space(s, from);
    if start == s.len() {
        return None;
    }
    let end: usize = find_space(s, start);
    assert(s@.skip(start as int).take(end - start) =~= s@.subrange(start as int, end as int));
    Some(part(s, start, end))
}

/// Whether a text holds this character nowhere.
pub open spec fn free_of(s: Seq<char>, c: char) -> bool {
    forall|i: int| 0 <= i < s.len() ==> #[trigger] s[i] != c
}

/// The first place of a character is where text without it ends.
pub proof fn lemma_first_behind(front: Seq<char>, c: char, rest: Seq<char>)
    requires
        free_of(front, c),
    ensures
        first_of(front + seq![c] + rest, c) == front.len(),
        first_of(front, c) == front.len(),
    decreases front.len(),
{
    let s = front + seq![c] + rest;
    if front.len() > 0 {
        assert(s[0] == front[0]);
        assert(s.skip(1) =~= front.skip(1) + seq![c] + rest);
        assert forall|i: int| 0 <= i < front.skip(1).len() implies #[trigger] front.skip(1)[i]
            != c by {
            assert(front.skip(1)[i] == front[i + 1]);
        }
        lemma_first_behind(front.skip(1), c, rest);
    }
}

/// Text that is put together of fields with a separator between them is taken
/// apart into these fields.
pub proof fn law_fields_taken_apart(front: Seq<char>, c: char, rest: Seq<char>, n: nat)
    requires
        free_of(front, c),
    ensures
        field(front, c, 0) == Some(front),
        n > 0 ==> field(front, c, n) is None,
        field(front + seq![c] + rest, c, 0) == Some(front),
        field(front + seq![c] + rest, c, n + 1) == field(rest, c, n),
{
    lemma_first_behind(front, c, rest);
    let s = front + seq![c] + rest;
    assert(s.take(front.len() as int) =~= front);
    assert(s.skip(front.len() as int + 1) =~= rest);
    assert(front.take(front.len() as int) =~= front);
}

/// Trimming takes white space off both ends and nothing else: what is left
/// neither starts nor ends with it, and stands in the text with nothing but
/// white space around it.
pub proof fn law_trimmed(s: &Vec<char>, r: Vec<char>)
    requires
        call_ensures(trim, (s,), r),
    ensures
        r@.len() > 0 ==> !is_space_char(r@[0]) && !is_space_char(r@.last()),
        exists|a: int, b: int|
            0 <= a <= b <= s@.len() && r@ == #[trigger] s@.subrange(a, b) && (forall|i: int|
                0 <= i < a ==> is_space_char(#[trigger] s@[i])) && (forall|i: int|
                b <= i < s@.len() ==> is_space_char(#[trigger] s@[i])),
{
    let t = trimmed_start(s@);
    let a = lemma_trimmed_start(s@);
    let n = lemma_trimmed_end(t);
    assert(r@ =~= s@.subrange(a, a + n));
    assert forall|i: int| a + n <= i < s@.len() implies is_space_char(#[trigger] s@[i]) by {
        assert(t[i - a] == s@[i]);
    }
    if r@.len() > 0 {
        assert(r@[0] == t[0]);
    }
}

/// How much white space is taken off the start.
proof fn lemma_trimmed_start(s: Seq<char>) -> (a: int)
    ensures
        0 <= a <= s.len(),
        trimmed_start(s) == s.skip(a),
        forall|i: int| 0 <= i < a ==> is_space_char(#[trigger] s[i]),
        trimmed_start(s).len() > 0 ==> !is_space_char(trimmed_start(s)[0]),
    decreases s.len(),
{
    if s.len() > 0 && is_space_char(s[0]) {
        let b = lemma_trimmed_start(s.skip(1));
        assert(s.skip(1).skip(b) =~= s.skip(b + 1));
        assert forall|i: int| 0 <= i < b + 1 implies is_space_char(#[trigger] s[i]) by {
            if i > 0 {
                assert(s.skip(1)[i - 1] == s[i]);
            }
        }
        b + 1
    } else {
        assert(s.skip(0) =~= s);
        0
    }
}

/// How much is left when white space is taken off the end.
proof fn lemma_trimmed_end(s: Seq<char>) -> (n: int)
    ensures
        0 <= n <= s.len(),
        trimmed_end(s) == s.take(n),
        forall|i: int| n <= i < s.len() ==> is_space_char(#[trigger] s[i]),
        n > 0 ==> !is_space_char(s[n - 1]),
    decreases s.len(),
{
    if s.len() > 0 && is_space_char(s.last()) {
        let n = lemma_trimmed_end(s.drop_last());
        assert(s.drop_last().take(n) =~= s.take(n));
        assert forall|i: int| n <= i < s.len() implies is_space_char(#[trigger] s[i]) by {
            if i < s.len() - 1 {
                assert(s.drop_last()[i] == s[i]);
            }
        }
        n
    } else {
        assert(s.take(s.len() as int) =~= s);
        s.len() as int
    }
}

/// Space, tab and line ends are white space; letters, digits and punctuation
/// are not.
pub proof fn law_white_space(c: char, r: bool)
    requires
        call_ensures(is_space, (c,), r),
    ensures
        c == ' ' || c == '\t' || c == '\n' || c == '\r' ==> r,
        '!' <= c <= '~' ==> !r,
        c == '\u{0b}' || c == '\u{0c}' || c == '\u{85}' || c == '\u{a0}' ==> r,
        '\u{2000}' <= c <= '\u{200a}' || c == '\u{2028}' || c == '\u{2029}' ==> r,
        c == '\u{1680}' || c == '\u{202f}' || c == '\u{205f}' || c == '\u{3000}' ==> r,
        c < '\t' || '\r' < c < ' ' || c == '\u{200b}' || c > '\u{3000}' ==> !r,
{
}

/// A number written in decimal is read back, with or without a plus sign,
/// unless it is too large. Text with anything but digits is no number.
pub proof fn law_numbers_read_back(
    n: nat,
    plain: &Vec<char>,
    signed: &Vec<char>,
    other: &Vec<char>,
    max: u64,
    r: Option<u64>,
    s: Option<u64>,
    o: Option<u64>,
)
    requires
        call_ensures(parse_number, (plain, max), r),
        call_ensures(parse_number, (signed, max), s),
        call_ensures(parse_number, (other, max), o),
        plain@ == crate::text::decimal(n),
        signed@ == seq!['+'] + crate::text::decimal(n),
    ensures
        n <= max ==> (r matches Some(v) && v == n) && (s matches Some(v) && v == n),
        n > max ==> r is None && s is None,
        other@.len() == 0 ==> o is None,
        (exists|i: int| 1 <= i < other@.len() && !('0' <= #[trigger] other@[i] <= '9')) ==> o
            is None,
        other@.len() > 0 && other@[0] != '+' && !('0' <= other@[0] <= '9') ==> o is None,
{
    lemma_digits_of_decimal(n);
    let d = crate::text::decimal(n);
    assert(d[0] != '+') by {
        assert(is_digit_char(d[0]));
    }
    assert(signed@.skip(1) =~= d);
    if exists|i: int| 1 <= i < other@.len() && !('0' <= #[trigger] other@[i] <= '9') {
        let i = choose|i: int| 1 <= i < other@.len() && !('0' <= #[trigger] other@[i] <= '9');
        let digits = unsigned_digits(other@);
        lemma_digit_chars(other@[i]);
        if other@[0] == '+' {
            assert(digits[i - 1] == other@[i]);
        } else {
            assert(digits[i] == other@[i]);
        }
    }
    if other@.len() > 0 && other@[0] != '+' && !('0' <= other@[0] <= '9') {
        lemma_digit_chars(other@[0]);
        assert(!is_digit_char(unsigned_digits(other@)[0]));
    }
}

/// The ten digits are the digits.
proof fn lemma_digit_chars(c: char)
    ensures
        is_digit_char(c) <==> '0' <= c <= '9',
{
}

/// The digits of a number in decimal have its value.
pub proof fn lemma_digits_of_decimal(n: nat)
    ensures
        all_digits(crate::text::decimal(n)),
        digits_value(crate::text::decimal(n)) == n,
    decreases n,
{
    let d = crate::text::decimal(n);
    reveal_with_fuel(digits_value, 2);
    if n >= 10 {
        lemma_digits_of_decimal(n / 10);
        let front = crate::text::decimal(n / 10);
        assert(d.drop_last() =~= front);
        assert forall|i: int| 0 <= i < d.len() implies is_digit_char(#[trigger] d[i]) by {
            if i < front.len() {
                assert(d[i] == front[i]);
            }
        }
    } else {
        assert(d.drop_last() =~= Seq::empty());
    }
}

/// Stripping takes a character off one end as often as it stands there, and
/// no more.
pub proof fn law_stripped_ends(
    s: &Vec<char>,
    c: char,
    front: Vec<char>,
    back: Vec<char>,
)
    requires
        call_ensures(strip_start, (s, c), front),
        call_ensures(strip_end, (s, c), back),
    ensures
        front@.len() > 0 ==> front@[0] != c,
        back@.len() > 0 ==> back@.last() != c,
        front@.len() <= s@.len() && front@ == s@.skip(s@.len() - front@.len()),
        forall|i: int| 0 <= i < s@.len() - front@.len() ==> #[trigger] s@[i] == c,
        back@.len() <= s@.len() && back@ == s@.take(back@.len() as int),
        forall|i: int| back@.len() <= i < s@.len() ==> #[trigger] s@[i] == c,
{
    lemma_stripped_start(s@, c);
    lemma_stripped_end(s@, c);
}

/// What is stripped off the start.
proof fn lemma_stripped_start(s: Seq<char>, c: char)
    ensures
        ({
            let r = stripped_start(s, c);
            &&& r.len() <= s.len() && r == s.skip(s.len() - r.len())
            &&& forall|i: int| 0 <= i < s.len() - r.len() ==> #[trigger] s[i] == c
            &&& r.len() > 0 ==> r[0] != c
        }),
    decreases s.len(),
{
    if s.len() > 0 && s[0] == c {
        let rest = s.skip(1);
        lemma_stripped_start(rest, c);
        let r = stripped_start(s, c);
        assert(rest.skip(rest.len() - r.len()) =~= s.skip(s.len() - r.len()));
        assert forall|i: int| 0 <= i < s.len() - r.len() implies #[trigger] s[i] == c by {
            if i > 0 {
                assert(rest[i - 1] == s[i]);
            }
        }
    } else {
        assert(s.skip(0) =~= s);
    }
}

/// What is stripped off the end.
proof fn lemma_stripped_end(s: Seq<char>, c: char)
    ensures
        ({
            let r = stripped_end(s, c);
            &&& r.len() <= s.len() && r == s.take(r.len() as int)
            &&& forall|i: int| r.len() <= i < s.len() ==> #[trigger] s[i] == c
            &&& r.len() > 0 ==> r.last() != c
        }),
    decreases s.len(),
{
    if s.len() > 0 && s.last() == c {
        let front = s.drop_last();
        lemma_stripped_end(front, c);
        let r = stripped_end(s, c);
        assert(front.take(r.len() as int) =~= s.take(r.len() as int));
        assert forall|i: int| r.len() <= i < s.len() implies #[trigger] s[i] == c by {
            if i < s.len() - 1 {
                assert(front[i] == s[i]);
            }
        }
    } else {
        assert(s.take(s.len() as int) =~= s);
    }
}

/// Fields are what stands between the separators, and are numbered from
/// nought.
pub proof fn law_fields_numbered(
    s: &Vec<char>,
    rest: &Vec<char>,
    front: Seq<char>,
    c: char,
    n: usize,
    next: usize,
    first: Option<Vec<char>>,
    later: Option<Vec<char>>,
    same: Option<Vec<char>>,
)
    requires
        call_ensures(nth_field, (s, c, 0), first),
        call_ensures(nth_field, (s, c, next), later),
        call_ensures(nth_field, (rest, c, n), same),
        free_of(front, c),
        s@ == front + seq![c] + rest@,
        next == n + 1,
    ensures
        first matches Some(f) && f@ == front,
        later is Some <==> same is Some,
        later matches Some(a) ==> (same matches Some(b) && a@ == b@),
{
    law_fields_taken_apart(front, c, rest@, n as nat);
}

/// A word that is told off at the start is told off as often as it stands
/// there, and nothing else is.
pub proof fn law_word_stripped(s: &Vec<char>, a: char, b: char, r: Vec<char>, more: Vec<char>, w: &Vec<char>)
    requires
        call_ensures(strip_word, (s, a, b), r),
        call_ensures(strip_word, (w, a, b), more),
        w@ == seq![a, b] + s@,
    ensures
        more@ == r@,
        !(s@.len() >= 2 && s@[0] == a && s@[1] == b) ==> r@ == s@,
{
    assert(w@.skip(2) =~= s@);
}

} // verus!
