//! The summary at the end of a stream of events.

use crate::session::{Hop, Session};
use crate::text::copy_of;
use vstd::prelude::*;

verus! {

/// What is said of a target when its stream ends.
#[derive(Clone, Debug)]
pub struct SummaryLine {
    /// What tells the line from those of events.
    pub kind: String,
    pub complete: bool,
    pub dest_ttl: Option<u8>,
    pub total_sent: u64,
    pub hops_responding: usize,
}

/// How many hops have responded.
pub open spec fn responding(hops: Seq<Hop>) -> nat
    decreases hops.len(),
{
    if hops.len() == 0 {
        0
    } else {
        responding(hops.drop_last()) + (if hops.last().received > 0 {
            1nat
        } else {
            0
        })
    }
}

/// What is said of a target when its stream ends.
pub fn summary_line(session: &Session) -> (r: SummaryLine)
    ensures
        r.kind@ == "summary"@,
        r.complete == session.complete,
        r.dest_ttl == session.dest_ttl,
        r.total_sent == session.total_sent,
        r.hops_responding == responding(session.hops@),
{
    let mut n: usize = 0;
    let mut i: usize = 0;
    assert(session.hops@.take(0) =~= Seq::empty());
    while i < session.hops.len()
        invariant
            i <= session.hops.len(),
            n <= i,
            n == responding(session.hops@.take(i as int)),
        decreases session.hops.len() - i,
    {
        assert(session.hops@.take(i + 1).drop_last() =~= session.hops@.take(i as int));
        if session.hops[i].received > 0 {
            n = n + 1;
        }
        i = i + 1;
    }
    assert(session.hops@.take(session.hops@.len() as int) =~= session.hops@);
    SummaryLine {
        kind: copy_of("summary"),
        complete: session.complete,
        dest_ttl: session.dest_ttl,
        total_sent: session.total_sent,
        hops_responding: n,
    }
}

/// The last line of a stream says how the trace ended: whether the target was
/// reached and at what distance, how much was sent, and how many hops have
/// answered.
pub proof fn law_summary_counts_answers(session: &Session, r: SummaryLine)
    requires
        call_ensures(summary_line, (session,), r),
    ensures
        r.complete == session.complete,
        r.dest_ttl == session.dest_ttl,
        r.total_sent == session.total_sent,
        r.hops_responding == session.hops@.filter(|hop: Hop| hop.received > 0).len(),
        r.kind@ == "summary"@,
{
    lemma_responding(session.hops@);
}

/// The hops that have answered, counted.
proof fn lemma_responding(hops: Seq<Hop>)
    ensures
        responding(hops) == hops.filter(|hop: Hop| hop.received > 0).len(),
    decreases hops.len(),
{
    reveal(Seq::filter);
    if hops.len() > 0 {
        lemma_responding(hops.drop_last());
    }
}

} // verus!
