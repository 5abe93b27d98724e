//! Host names by reverse DNS.

use crate::fields::{strip_end, stripped_end};
use crate::lookup::display::{sanitize_display, sanitized};
use crate::text::{chars_of, string_of};
use vstd::prelude::*;

verus! {

/// Maximum concurrent lookups.
pub const MAX_CONCURRENT_LOOKUPS: usize = 10;

/// The host name that a PTR record gives: without trailing dots and without
/// control characters.
pub fn host_name(ptr: &str) -> (r: String)
    ensures
        r@ == sanitized(stripped_end(ptr@, '.')),
{
    let chars: Vec<char> = chars_of(ptr);
    sanitize_display(string_of(&strip_end(&chars, '.')).as_str())
}

/// A host name is what the answer says without the dot at its end.
pub proof fn law_host_name_without_dot(ptr: &str, name: Seq<char>, r: String)
    requires
        call_ensures(host_name, (ptr,), r),
        ptr@ == name || ptr@ == name + seq!['.'],
        name.len() > 0 ==> name.last() != '.',
    ensures
        r@ == sanitized(name),
{
    let with_dot = name + seq!['.'];
    assert(with_dot.drop_last() =~= name);
    assert(stripped_end(name, '.') == name);
}

} // verus!
