//! Making looked-up text safe to show.

use crate::text::{chars_of, is_control, is_control_char, opt_text};
use vstd::prelude::*;

verus! {

/// `s` without its control characters.
pub open spec fn sanitized(s: Seq<char>) -> Seq<char>
    decreases s.len(),
{
    if s.len() == 0 {
        s
    } else if is_control_char(s.last()) {
        sanitized(s.drop_last())
    } else {
        sanitized(s.drop_last()).push(s.last())
    }
}

/// Removes control characters, which could carry terminal escape sequences.
pub fn sanitize_display(s: &str) -> (r: String)
    ensures
        r@ == sanitized(s@),
{
    let chars: Vec<char> = chars_of(s);
    let mut out: String = String::new();
    let mut i: usize = 0;
    while i < chars.len()
        invariant
            i <= chars.len(),
            out@ == sanitized(chars@.take(i as int)),
        decreases chars.len() - i,
    {
        let c: char = chars[i];
        assert(chars@.take(i + 1).drop_last() =~= chars@.take(i as int));
        if !is_control(c) {
            out.push(c);
        }
        i = i + 1;
    }
    assert(chars@.take(chars@.len() as int) =~= chars@);
    out
}

/// Removes control characters of an optional text.
pub fn sanitize_opt(s: &Option<String>) -> (r: Option<String>)
    ensures
        opt_text(r) == sanitized_opt(opt_text(*s)),
{
    match s {
        Some(t) => Some(sanitize_display(t.as_str())),
        None => None,
    }
}

/// An optional text without its control characters.
pub open spec fn sanitized_opt(s: Option<Seq<char>>) -> Option<Seq<char>> {
    match s {
        Some(t) => Some(sanitized(t)),
        None => None,
    }
}

/// No control character is left after sanitizing, and text without control
/// characters stays as it is.
pub proof fn law_sanitized_has_no_control(s: Seq<char>)
    ensures
        forall|i: int|
            0 <= i < sanitized(s).len() ==> !is_control_char(#[trigger] sanitized(s)[i]),
        (forall|i: int| 0 <= i < s.len() ==> !is_control_char(#[trigger] s[i])) ==> sanitized(s)
            == s,
    decreases s.len(),
{
    if s.len() > 0 {
        let rest = sanitized(s.drop_last());
        law_sanitized_has_no_control(s.drop_last());
        assert forall|i: int| 0 <= i < sanitized(s).len() implies !is_control_char(
            #[trigger] sanitized(s)[i],
        ) by {
            if i < rest.len() {
                assert(sanitized(s)[i] == rest[i]);
            }
        }
        if forall|i: int| 0 <= i < s.len() ==> !is_control_char(#[trigger] s[i]) {
            assert forall|i: int| 0 <= i < s.drop_last().len() implies !is_control_char(
                #[trigger] s.drop_last()[i],
            ) by {
                assert(s.drop_last()[i] == s[i]);
            }
            assert(sanitized(s) =~= s);
        }
    }
}

/// Sanitizing twice is sanitizing once.
pub proof fn law_sanitize_idempotent(s: Seq<char>)
    ensures
        sanitized(sanitized(s)) == sanitized(s),
{
    law_sanitized_has_no_control(s);
    law_sanitized_has_no_control(sanitized(s));
}

/// Of a text that is made safe to show, every other character stays, in its
/// order.
pub proof fn law_sanitized_keeps_the_rest(s: &str, r: String)
    requires
        call_ensures(sanitize_display, (s,), r),
    ensures
        r@ == s@.filter(|c: char| !(c as u32 <= 0x1F || 0x7F <= c as u32 <= 0x9F)),
{
    lemma_sanitized_filter(s@);
}

/// Sanitizing is filtering.
proof fn lemma_sanitized_filter(s: Seq<char>)
    ensures
        sanitized(s) == s.filter(|c: char| !(c as u32 <= 0x1F || 0x7F <= c as u32 <= 0x9F)),
    decreases s.len(),
{
    reveal(Seq::filter);
    if s.len() > 0 {
        lemma_sanitized_filter(s.drop_last());
    }
}

} // verus!
