//! Points in time as text.

use crate::text::is_control_char;
use vstd::prelude::*;

verus! {

/// How file names show a point in time.
pub const COMPACT: &'static str = "%Y%m%d-%H%M%S";

/// How reports show a point in time.
pub const READABLE: &'static str = "%Y-%m-%d %H:%M:%S UTC";

/// Whether a point in time, in seconds since 1970, has a calendar date.
pub open spec fn has_date(seconds: i64) -> bool {
    -8334601228800 <= seconds <= 8210266876799
}

/// Whether a point in time has a calendar date.
pub fn is_date(seconds: i64) -> (r: bool)
    ensures
        r == has_date(seconds),
{
    -8334601228800 <= seconds && seconds <= 8210266876799
}

/// The text of a point in time, in UTC, in a given pattern.
pub uninterp spec fn utc_text(seconds: i64, pattern: Seq<char>) -> Seq<char>;

/// `chrono::DateTime::<Utc>::from_timestamp` and `DateTime::format`: the text
/// of a point in time is a function of the seconds and the pattern, and holds
/// no control characters: with these patterns it is made of digits, signs,
/// hyphens, colons, spaces and letters. Seconds outside chrono's calendar and
/// patterns other than the two above, which chrono may refuse, are left out.
/// What else the text looks like is not stated.
#[verifier::external_body]
pub(crate) fn format_utc(seconds: i64, pattern: &str) -> (r: String)
    requires
        has_date(seconds),
        pattern@ == COMPACT@ || pattern@ == READABLE@,
    ensures
        r@ == utc_text(seconds, pattern@),
        forall|i: int| 0 <= i < r@.len() ==> !is_control_char(#[trigger] r@[i]),
{
    chrono::DateTime::<chrono::Utc>::from_timestamp(seconds, 0).unwrap().format(pattern).to_string()
}

/// Every second that a clock counts from the epoch with 32 bits has a date,
/// and so has every second between two that have one.
pub proof fn law_dates_lie_together(early: i64, late: i64, between: i64, a: bool, b: bool, r: bool)
    requires
        call_ensures(is_date, (early,), a),
        call_ensures(is_date, (late,), b),
        call_ensures(is_date, (between,), r),
        early <= between <= late,
    ensures
        a && b ==> r,
        0 <= between <= 4294967295 ==> r,
{
}

} // verus!
