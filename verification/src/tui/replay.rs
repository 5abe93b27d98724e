//! Playing back the events of a saved session.

use crate::state::ProbeEvent;
use crate::text::{copy_of, decimal, push_decimal, push_text};
use vstd::prelude::*;

verus! {

/// State of a replay. The clock that drives it, and its speed, belong to the
/// program; positions are in milliseconds of the recording.
#[derive(Clone, Debug)]
pub struct ReplayState {
    /// All events, in the order in which they happened.
    pub events: Vec<ProbeEvent>,
    /// How many events have been applied.
    pub current_index: usize,
    pub paused: bool,
    pub finished: bool,
    /// The position at which the replay was paused.
    pub paused_at_elapsed_ms: u64,
}

/// Whether events are in the order in which they happened.
pub open spec fn in_time(events: Seq<ProbeEvent>) -> bool {
    forall|i: int, j: int|
        0 <= i < j < events.len() ==> (#[trigger] events[i]).offset_ms <= (
        #[trigger] events[j]).offset_ms
}

/// Events in order with one more at its place, after those of its time.
pub open spec fn placed(events: Seq<ProbeEvent>, e: ProbeEvent) -> Seq<ProbeEvent>
    decreases events.len(),
{
    if events.len() > 0 && e.offset_ms < events.last().offset_ms {
        placed(events.drop_last(), e).push(events.last())
    } else {
        events.push(e)
    }
}

/// Events sorted by time; those of one time keep their order.
pub open spec fn by_time(events: Seq<ProbeEvent>) -> Seq<ProbeEvent>
    decreases events.len(),
{
    if events.len() == 0 {
        events
    } else {
        placed(by_time(events.drop_last()), events.last())
    }
}

/// Sorting keeps all events and puts them in order.
pub proof fn law_by_time(events: Seq<ProbeEvent>)
    ensures
        in_time(by_time(events)),
        by_time(events).to_multiset() == events.to_multiset(),
        by_time(events).len() == events.len(),
    decreases events.len(),
{
    broadcast use vstd::seq_lib::group_to_multiset_ensures;

    if events.len() > 0 {
        law_by_time(events.drop_last());
        lemma_placed(by_time(events.drop_last()), events.last());
        assert(events =~= events.drop_last().push(events.last()));
    }
}

/// Events that are in order already stay as they are.
pub proof fn law_by_time_idempotent(events: Seq<ProbeEvent>)
    requires
        in_time(events),
    ensures
        by_time(events) == events,
    decreases events.len(),
{
    if events.len() > 0 {
        let head = events.drop_last();
        assert(in_time(head)) by {
            assert forall|i: int, j: int| 0 <= i < j < head.len() implies (
            #[trigger] head[i]).offset_ms <= (#[trigger] head[j]).offset_ms by {
                assert(events[i].offset_ms <= events[j].offset_ms);
            }
        }
        law_by_time_idempotent(head);
        if head.len() > 0 {
            assert(events[head.len() - 1].offset_ms <= events[events.len() - 1].offset_ms);
        }
        assert(head.push(events.last()) =~= events);
    }
}

proof fn lemma_placed(events: Seq<ProbeEvent>, e: ProbeEvent)
    requires
        in_time(events),
    ensures
        in_time(placed(events, e)),
        placed(events, e).to_multiset() == events.to_multiset().insert(e),
        placed(events, e).len() == events.len() + 1,
        forall|m: u64|
            #![trigger bounded(placed(events, e), m)]
            bounded(events, m) && e.offset_ms <= m ==> bounded(placed(events, e), m),
    decreases events.len(),
{
    broadcast use vstd::seq_lib::group_to_multiset_ensures;

    let out = placed(events, e);
    if events.len() > 0 && e.offset_ms < events.last().offset_ms {
        let head = events.drop_last();
        let z = events.last();
        assert forall|i: int, j: int| 0 <= i < j < head.len() implies (
        #[trigger] head[i]).offset_ms <= (#[trigger] head[j]).offset_ms by {
            assert(events[i].offset_ms <= events[j].offset_ms);
        }
        lemma_placed(head, e);
        let inner = placed(head, e);
        assert(events =~= head.push(z));
        assert(bounded(head, z.offset_ms)) by {
            assert forall|i: int| 0 <= i < head.len() implies (#[trigger] head[i]).offset_ms
                <= z.offset_ms by {
                assert(events[i].offset_ms <= events[events.len() - 1].offset_ms);
            }
        }
        assert(bounded(inner, z.offset_ms));
        assert forall|i: int, j: int| 0 <= i < j < out.len() implies (#[trigger] out[i]).offset_ms
            <= (#[trigger] out[j]).offset_ms by {
            if j < inner.len() {
                assert(inner[i].offset_ms <= inner[j].offset_ms);
            } else {
                assert(inner[i].offset_ms <= z.offset_ms);
            }
        }
        assert forall|m: u64|
            #![trigger bounded(out, m)]
            bounded(events, m) && e.offset_ms <= m implies bounded(out, m) by {
            assert(bounded(head, m)) by {
                assert forall|i: int| 0 <= i < head.len() implies (#[trigger] head[i]).offset_ms
                    <= m by {
                    assert(events[i].offset_ms <= m);
                }
            }
            assert(bounded(inner, m));
            assert forall|i: int| 0 <= i < out.len() implies (#[trigger] out[i]).offset_ms <= m by {
                if i < inner.len() {
                    assert(inner[i].offset_ms <= m);
                } else {
                    assert(events[events.len() - 1].offset_ms <= m);
                }
            }
        }
        assert(head.to_multiset().insert(e).insert(z) =~= head.to_multiset().insert(z).insert(e));
    } else {
        assert forall|i: int, j: int| 0 <= i < j < out.len() implies (#[trigger] out[i]).offset_ms
            <= (#[trigger] out[j]).offset_ms by {
            if j == events.len() {
                assert(events.len() > 0);
                if i < events.len() - 1 {
                    assert(events[i].offset_ms <= events[events.len() - 1].offset_ms);
                }
            }
        }
    }
}

/// Whether no event lies after a time.
pub open spec fn bounded(events: Seq<ProbeEvent>, ms: u64) -> bool {
    forall|i: int| 0 <= i < events.len() ==> (#[trigger] events[i]).offset_ms <= ms
}

/// Puts one more event at its place.
fn place_event(events: &mut Vec<ProbeEvent>, e: ProbeEvent)
    ensures
        final(events)@ == placed(old(events)@, e),
{
    let ghost start = events@;
    let mut at: usize = events.len();
    proof {
        assert(start.take(at as int) =~= start);
        assert(placed(start, e) =~= placed(start.take(at as int), e) + start.skip(at as int));
    }
    while at > 0 && e.offset_ms < events[at - 1].offset_ms
        invariant
            at <= events.len(),
            start == events@,
            placed(start, e) == placed(start.take(at as int), e) + start.skip(at as int),
        decreases at,
    {
        proof {
            let head = start.take(at as int);
            assert(head.drop_last() =~= start.take(at - 1));
            assert(placed(start.take(at - 1), e).push(start[at - 1]) + start.skip(at as int)
                =~= placed(start.take(at - 1), e) + start.skip(at - 1));
        }
        at = at - 1;
    }
    proof {
        let head = start.take(at as int);
        if at > 0 {
            assert(head.last() == start[at - 1]);
        }
        assert(placed(start, e) =~= start.insert(at as int, e));
    }
    events.insert(at, e);
}

/// The time of the last event, zero if there is none.
pub open spec fn duration(events: Seq<ProbeEvent>) -> u64 {
    if events.len() == 0 {
        0
    } else {
        events.last().offset_ms
    }
}

/// How many of the first events happened up to a time.
pub open spec fn happened(events: Seq<ProbeEvent>, ms: u64) -> nat
    decreases events.len(),
{
    if events.len() == 0 {
        0
    } else if events.last().offset_ms <= ms {
        events.len()
    } else {
        happened(events.drop_last(), ms)
    }
}

/// In order, exactly the events counted happened up to the time.
pub proof fn law_happened(events: Seq<ProbeEvent>, ms: u64)
    requires
        in_time(events),
    ensures
        happened(events, ms) <= events.len(),
        forall|i: int|
            0 <= i < events.len() ==> ((#[trigger] events[i]).offset_ms <= ms <==> i < happened(
                events,
                ms,
            )),
    decreases events.len(),
{
    if events.len() > 0 {
        if events.last().offset_ms <= ms {
            assert forall|i: int| 0 <= i < events.len() implies (#[trigger] events[i]).offset_ms
                <= ms by {
                if i < events.len() - 1 {
                    assert(events[i].offset_ms <= events[events.len() - 1].offset_ms);
                }
            }
        } else {
            let head = events.drop_last();
            assert forall|i: int, j: int| 0 <= i < j < head.len() implies (
            #[trigger] head[i]).offset_ms <= (#[trigger] head[j]).offset_ms by {
                assert(events[i].offset_ms <= events[j].offset_ms);
            }
            law_happened(head, ms);
            assert forall|i: int| 0 <= i < events.len() implies ((#[trigger] events[i]).offset_ms
                <= ms <==> i < happened(events, ms)) by {
                if i < head.len() {
                    assert(head[i].offset_ms == events[i].offset_ms);
                }
            }
        }
    }
}

/// Where a position lies among the events: those up to it have happened, but
/// at the very start none has.
pub open spec fn index_for_time(events: Seq<ProbeEvent>, target_ms: u64) -> nat {
    if target_ms == 0 {
        0
    } else {
        happened(events, target_ms)
    }
}

/// Finds where a position lies among the events.
pub fn replay_event_index_for_time(events: &Vec<ProbeEvent>, target_ms: u64) -> (r: usize)
    requires
        in_time(events@),
    ensures
        r == index_for_time(events@, target_ms),
        r <= events@.len(),
{
    proof {
        law_happened(events@, target_ms);
    }
    if target_ms == 0 {
        return 0;
    }
    let mut low: usize = 0;
    let mut high: usize = events.len();
    while low < high
        invariant
            low <= high <= events@.len(),
            happened(events@, target_ms) <= events@.len(),
            forall|i: int|
                0 <= i < events@.len() ==> ((#[trigger] events@[i]).offset_ms <= target_ms <==> i
                    < happened(events@, target_ms)),
            low <= happened(events@, target_ms) <= high,
        decreases high - low,
    {
        let mid: usize = low + (high - low) / 2;
        if events[mid].offset_ms <= target_ms {
            low = mid + 1;
        } else {
            high = mid;
        }
    }
    low
}

/// A position from another by a step, kept within range.
pub open spec fn stepped(current_ms: u64, delta_ms: i64) -> u64 {
    if current_ms + delta_ms < 0 {
        0
    } else if current_ms + delta_ms > u64::MAX {
        u64::MAX
    } else {
        (current_ms + delta_ms) as u64
    }
}

/// A position from another by a step, kept within range.
pub fn replay_target_ms_from_delta(current_ms: u64, delta_ms: i64) -> (r: u64)
    ensures
        r == stepped(current_ms, delta_ms),
{
    let sum: i128 = current_ms as i128 + delta_ms as i128;
    if sum < 0 {
        0
    } else if sum > u64::MAX as i128 {
        u64::MAX
    } else {
        sum as u64
    }
}

/// Two digits.
pub open spec fn two_digits(n: nat) -> Seq<char> {
    if n < 10 {
        "0"@ + decimal(n)
    } else {
        decimal(n)
    }
}

/// A time as text: minutes and seconds, or seconds alone below a minute.
pub open spec fn time_text(ms: u64) -> Seq<char> {
    let secs = ms / 1000;
    let frac = (ms % 1000) / 100;
    let mins = secs / 60;
    if mins > 0 {
        decimal(mins as nat) + ":"@ + two_digits((secs % 60) as nat) + "."@ + decimal(frac as nat)
    } else {
        decimal((secs % 60) as nat) + "."@ + decimal(frac as nat) + "s"@
    }
}

/// Formats a time for people to read.
pub fn format_replay_time(ms: u64) -> (r: String)
    ensures
        r@ == time_text(ms),
{
    let secs: u64 = ms / 1000;
    let frac: u64 = (ms % 1000) / 100;
    let mins: u64 = secs / 60;
    let rest: u64 = secs % 60;
    if mins > 0 {
        let mut out: String = crate::text::decimal_string(mins);
        push_text(&mut out, ":");
        if rest < 10 {
            let mut two: String = copy_of("0");
            push_decimal(&mut two, rest);
            push_text(&mut out, two.as_str());
        } else {
            push_decimal(&mut out, rest);
        }
        push_text(&mut out, ".");
        push_decimal(&mut out, frac);
        out
    } else {
        let mut out: String = crate::text::decimal_string(rest);
        push_text(&mut out, ".");
        push_decimal(&mut out, frac);
        push_text(&mut out, "s");
        out
    }
}

/// A position as text.
pub open spec fn position_text(
    target_ms: u64,
    total_duration: u64,
    target_index: nat,
    total_events: nat,
) -> Seq<char> {
    if total_events == 0 {
        "empty replay (0/0 events)"@
    } else if target_index == 0 {
        "start (event 0/"@ + decimal(total_events) + ")"@
    } else if target_index >= total_events {
        if total_duration == 0 {
            "end (event "@ + decimal(target_index) + "/"@ + decimal(total_events)
                + ", instant timeline)"@
        } else {
            "end "@ + time_text(total_duration) + " (event "@ + decimal(target_index) + "/"@
                + decimal(total_events) + ")"@
        }
    } else {
        time_text(target_ms) + " (event "@ + decimal(target_index) + "/"@ + decimal(total_events)
            + ")"@
    }
}

/// Formats a position for status messages.
pub fn format_replay_position(
    target_ms: u64,
    total_duration: u64,
    target_index: usize,
    total_events: usize,
) -> (r: String)
    ensures
        r@ == position_text(
            target_ms,
            total_duration,
            target_index as nat,
            total_events as nat,
        ),
{
    if total_events == 0 {
        copy_of("empty replay (0/0 events)")
    } else if target_index == 0 {
        let mut out: String = copy_of("start (event 0/");
        push_decimal(&mut out, total_events as u64);
        push_text(&mut out, ")");
        out
    } else if target_index >= total_events {
        if total_duration == 0 {
            let mut out: String = copy_of("end (event ");
            push_decimal(&mut out, target_index as u64);
            push_text(&mut out, "/");
            push_decimal(&mut out, total_events as u64);
            push_text(&mut out, ", instant timeline)");
            out
        } else {
            let mut out: String = copy_of("end ");
            let time: String = format_replay_time(total_duration);
            push_text(&mut out, time.as_str());
            push_text(&mut out, " (event ");
            push_decimal(&mut out, target_index as u64);
            push_text(&mut out, "/");
            push_decimal(&mut out, total_events as u64);
            push_text(&mut out, ")");
            out
        }
    } else {
        let mut out: String = format_replay_time(target_ms);
        push_text(&mut out, " (event ");
        push_decimal(&mut out, target_index as u64);
        push_text(&mut out, "/");
        push_decimal(&mut out, total_events as u64);
        push_text(&mut out, ")");
        out
    }
}

/// What happens to the session on show when the position changes.
#[derive(Clone, Copy, Debug, PartialEq, Eq, Structural)]
pub enum SessionChange {
    /// Nothing.
    Keep,
    /// The events from the first place up to the second are applied.
    Apply(usize, usize),
    /// The session starts over, and as many events are applied.
    Rebuild(usize),
}

/// The events that a session holds after a change, given those that it held
/// before.
pub open spec fn applied(
    change: SessionChange,
    before: Seq<ProbeEvent>,
    events: Seq<ProbeEvent>,
) -> Seq<ProbeEvent> {
    match change {
        SessionChange::Keep => before,
        SessionChange::Apply(from, to) => before + events.subrange(from as int, to as int),
        SessionChange::Rebuild(to) => events.take(to as int),
    }
}

impl ReplayState {
    /// Whether the events are in order and the position is one of theirs.
    pub open spec fn wf(self) -> bool {
        in_time(self.events@) && self.current_index <= self.events@.len()
    }

    /// A replay at its start; the events are sorted by time.
    pub fn new(events: Vec<ProbeEvent>) -> (r: ReplayState)
        ensures
            r.wf(),
            r.events@ == by_time(events@),
            r.current_index == 0,
            !r.paused,
            !r.finished,
            r.paused_at_elapsed_ms == 0,
    {
        let mut sorted: Vec<ProbeEvent> = Vec::new();
        let mut i: usize = 0;
        assert(events@.take(0) =~= Seq::empty());
        while i < events.len()
            invariant
                i <= events.len(),
                sorted@ == by_time(events@.take(i as int)),
            decreases events.len() - i,
        {
            assert(events@.take(i + 1).drop_last() =~= events@.take(i as int));
            place_event(&mut sorted, events[i]);
            i = i + 1;
        }
        proof {
            assert(events@.take(events@.len() as int) =~= events@);
            law_by_time(events@);
        }
        ReplayState {
            events: sorted,
            current_index: 0,
            paused: false,
            finished: false,
            paused_at_elapsed_ms: 0,
        }
    }

    /// The time of the last event.
    pub fn total(&self) -> (r: u64)
        ensures
            r == duration(self.events@),
    {
        if self.events.len() == 0 {
            0
        } else {
            self.events[self.events.len() - 1].offset_ms
        }
    }

    /// The position of the replay; `running_ms` is what the clock says.
    pub open spec fn position(self, running_ms: u64) -> u64 {
        if self.paused {
            self.paused_at_elapsed_ms
        } else if self.finished {
            duration(self.events@)
        } else {
            running_ms
        }
    }

    /// The position of the replay; `running_ms` is what the clock says, which
    /// counts only while the replay runs.
    pub fn current_ms(&self, running_ms: u64) -> (r: u64)
        ensures
            r == self.position(running_ms),
    {
        if self.paused {
            self.paused_at_elapsed_ms
        } else if self.finished {
            self.total()
        } else {
            running_ms
        }
    }

    /// Pauses or resumes. On resuming, the clock is to be set to the position
    /// that is returned.
    pub fn toggle_pause(&mut self, running_ms: u64) -> (r: Option<u64>)
        ensures
            final(self).events@ == old(self).events@,
            final(self).current_index == old(self).current_index,
            final(self).finished == old(self).finished,
            final(self).paused == !old(self).paused,
            final(self).paused_at_elapsed_ms == old(self).position(running_ms),
            r == (if old(self).paused {
                Some(old(self).paused_at_elapsed_ms)
            } else {
                None
            }),
    {
        if self.paused {
            self.paused = false;
            Some(self.paused_at_elapsed_ms)
        } else {
            self.paused_at_elapsed_ms = self.current_ms(running_ms);
            self.paused = true;
            None
        }
    }

    /// Goes to a position (at most the end), and pauses there.
    pub fn seek_to(&mut self, target_ms: u64) -> (r: SessionChange)
        requires
            old(self).wf(),
        ensures
            final(self).wf(),
            final(self).events@ == old(self).events@,
            final(self).paused,
            final(self).paused_at_elapsed_ms == (if target_ms <= duration(old(self).events@) {
                target_ms
            } else {
                duration(old(self).events@)
            }),
            final(self).current_index == index_for_time(
                old(self).events@,
                final(self).paused_at_elapsed_ms,
            ),
            final(self).finished == (final(self).current_index >= old(self).events@.len()),
            r == (if final(self).current_index == old(self).current_index {
                SessionChange::Keep
            } else if final(self).current_index < old(self).current_index {
                SessionChange::Rebuild(final(self).current_index)
            } else {
                SessionChange::Apply(old(self).current_index, final(self).current_index)
            }),
    {
        let total: u64 = self.total();
        let to: u64 = if target_ms <= total {
            target_ms
        } else {
            total
        };
        let index: usize = replay_event_index_for_time(&self.events, to);
        let from: usize = self.current_index;
        self.paused = true;
        self.paused_at_elapsed_ms = to;
        self.finished = index >= self.events.len();
        self.current_index = index;
        if index == from {
            SessionChange::Keep
        } else if index < from {
            SessionChange::Rebuild(index)
        } else {
            SessionChange::Apply(from, index)
        }
    }

    /// Goes to the end, with all events applied, and pauses there.
    pub fn seek_to_end(&mut self) -> (r: SessionChange)
        requires
            old(self).wf(),
        ensures
            final(self).wf(),
            final(self).events@ == old(self).events@,
            final(self).paused,
            final(self).paused_at_elapsed_ms == duration(old(self).events@),
            final(self).current_index == old(self).events@.len(),
            final(self).finished,
            r == (if old(self).current_index < old(self).events@.len() {
                SessionChange::Apply(old(self).current_index, final(self).current_index)
            } else {
                SessionChange::Keep
            }),
    {
        let from: usize = self.current_index;
        let to: usize = self.events.len();
        self.paused = true;
        self.paused_at_elapsed_ms = self.total();
        self.finished = true;
        self.current_index = to;
        if to > from {
            SessionChange::Apply(from, to)
        } else {
            SessionChange::Keep
        }
    }

    /// Whether the clock drives the replay.
    pub open spec fn runs(self) -> bool {
        !self.paused && !self.finished
    }

    /// Plays what has become due, if the replay runs.
    pub fn tick(&mut self, running_ms: u64) -> (r: SessionChange)
        requires
            old(self).wf(),
        ensures
            final(self).wf(),
            final(self).events@ == old(self).events@,
            final(self).paused == old(self).paused,
            final(self).paused_at_elapsed_ms == old(self).paused_at_elapsed_ms,
            !old(self).runs() ==> *final(self) == *old(self) && r == SessionChange::Keep,
            old(self).runs() ==> {
                &&& final(self).current_index == (if happened(old(self).events@, running_ms) > old(
                    self).current_index {
                    happened(old(self).events@, running_ms) as usize
                } else {
                    old(self).current_index
                })
                &&& final(self).finished == (final(self).current_index >= old(self).events@.len())
                &&& r == (if final(self).current_index > old(self).current_index {
                    SessionChange::Apply(old(self).current_index, final(self).current_index)
                } else {
                    SessionChange::Keep
                })
            },
    {
        if self.paused || self.finished {
            return SessionChange::Keep;
        }
        proof {
            law_happened(self.events@, running_ms);
        }
        let from: usize = self.current_index;
        let mut to: usize = from;
        while to < self.events.len() && self.events[to].offset_ms <= running_ms
            invariant
                from <= to <= self.events@.len(),
                self.events@ == old(self).events@,
                self.current_index == from,
                self.paused == old(self).paused,
                self.finished == old(self).finished,
                self.paused_at_elapsed_ms == old(self).paused_at_elapsed_ms,
                happened(self.events@, running_ms) <= self.events@.len(),
                forall|i: int|
                    0 <= i < self.events@.len() ==> ((#[trigger] self.events@[i]).offset_ms
                        <= running_ms <==> i < happened(self.events@, running_ms)),
                to > from ==> to <= happened(self.events@, running_ms),
            decreases self.events@.len() - to,
        {
            to = to + 1;
        }
        if to > from {
            self.current_index = to;
        }
        if self.current_index >= self.events.len() {
            self.finished = true;
        }
        if to > from {
            SessionChange::Apply(from, to)
        } else {
            SessionChange::Keep
        }
    }
}

/// However a replay is played and sought, the session on show holds exactly
/// the events before the position: a change to a later position appends what
/// lies between, one to an earlier position starts over.
pub proof fn law_session_follows_position(events: Seq<ProbeEvent>, from: usize, to: usize)
    requires
        from <= events.len(),
        to <= events.len(),
    ensures
        from == to ==> applied(SessionChange::Keep, events.take(from as int), events)
            == events.take(to as int),
        from < to ==> applied(SessionChange::Apply(from, to), events.take(from as int), events)
            == events.take(to as int),
        applied(SessionChange::Rebuild(to), events.take(from as int), events) == events.take(
            to as int,
        ),
{
    if from < to {
        assert(events.take(from as int) + events.subrange(from as int, to as int) =~= events.take(
            to as int,
        ));
    }
}

} // verus!
