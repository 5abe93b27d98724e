//! The search for the largest packet that reaches the target.

use crate::state::{PmtudPhase, PmtudState};
use vstd::prelude::*;

verus! {

/// The smallest size that every IPv4 path passes.
pub const LEAST_V4: u16 = 68;

/// The smallest size that every IPv6 path passes.
pub const LEAST_V6: u16 = 1280;

/// The largest size on Ethernet.
pub const MOST: u16 = 1500;

/// The largest size with jumbo frames.
pub const MOST_JUMBO: u16 = 9216;

/// Failures after which a size counts as too large.
pub const FAILURES_NEEDED: u32 = 2;

/// The size between the limits that is tried next.
pub open spec fn between(min: u16, max: u16) -> u16 {
    (min + (max - min + 1) / 2) as u16
}

/// A search that goes on, or ends where its limits meet.
pub open spec fn narrowed(s: PmtudState, min: u16, max: u16, next: u16) -> PmtudState {
    if min >= max {
        PmtudState {
            phase: PmtudPhase::Complete,
            min_size: min,
            max_size: max,
            successes: 0,
            failures: 0,
            discovered_mtu: Some(min),
            ..s
        }
    } else {
        PmtudState {
            min_size: min,
            max_size: max,
            current_size: next,
            successes: 0,
            failures: 0,
            ..s
        }
    }
}

/// The search after a size passed: no smaller one needs to be tried.
pub open spec fn after_success(s: PmtudState) -> PmtudState {
    narrowed(s, s.current_size, s.max_size, between(s.current_size, s.max_size))
}

/// The search after a size failed: it is tried again, or once it has failed
/// often enough, smaller ones are.
pub open spec fn after_failure(s: PmtudState) -> PmtudState {
    if s.failures + 1 < FAILURES_NEEDED {
        PmtudState { failures: (s.failures + 1) as u32, ..s }
    } else {
        let most = (s.current_size - 1) as u16;
        narrowed(s, s.min_size, most, between(s.min_size, most))
    }
}

/// The search after a router reported its MTU: that size is tried next. A
/// report that is out of range is an ordinary failure.
pub open spec fn after_report(s: PmtudState, mtu: u16) -> PmtudState {
    if s.min_size <= mtu < s.current_size {
        narrowed(s, s.min_size, mtu, mtu)
    } else {
        after_failure(s)
    }
}

/// The search after the local interface refused a size: smaller ones are
/// tried.
pub open spec fn after_refusal(s: PmtudState, size: u16) -> PmtudState {
    let most = if size > 0 {
        (size - 1) as u16
    } else {
        0
    };
    narrowed(s, s.min_size, most, between(s.min_size, most))
}

impl PmtudState {
    /// Whether the size being tried lies between the limits.
    pub open spec fn wf(self) -> bool {
        self.min_size < self.current_size <= self.max_size
    }

    /// A search that has not begun.
    pub fn new(ipv6: bool, jumbo: bool) -> (r: PmtudState)
        ensures
            r == (PmtudState {
                phase: PmtudPhase::WaitingForDestination,
                min_size: if ipv6 {
                    LEAST_V6
                } else {
                    LEAST_V4
                },
                max_size: if jumbo {
                    MOST_JUMBO
                } else {
                    MOST
                },
                current_size: if jumbo {
                    MOST_JUMBO
                } else {
                    MOST
                },
                successes: 0,
                failures: 0,
                discovered_mtu: None,
            }),
            r.wf(),
    {
        let most: u16 = if jumbo {
            MOST_JUMBO
        } else {
            MOST
        };
        PmtudState {
            phase: PmtudPhase::WaitingForDestination,
            min_size: if ipv6 {
                LEAST_V6
            } else {
                LEAST_V4
            },
            max_size: most,
            current_size: most,
            successes: 0,
            failures: 0,
            discovered_mtu: None,
        }
    }

    /// Begins the search with the largest size.
    pub fn start_search(&mut self)
        ensures
            *final(self) == (PmtudState {
                phase: PmtudPhase::Searching,
                current_size: old(self).max_size,
                ..*old(self)
            }),
    {
        self.phase = PmtudPhase::Searching;
        self.current_size = self.max_size;
    }

    /// Whether the limits have met.
    pub fn is_converged(&self) -> (r: bool)
        ensures
            r == (self.min_size >= self.max_size),
    {
        self.min_size >= self.max_size
    }

    /// The size to try next.
    pub fn next_probe_size(&self) -> (r: u16)
        ensures
            self.min_size < self.max_size ==> r == between(self.min_size, self.max_size)
                && self.min_size < r <= self.max_size,
            self.min_size >= self.max_size ==> r == self.min_size,
    {
        if self.min_size < self.max_size {
            self.min_size + (self.max_size - self.min_size) / 2 + (self.max_size - self.min_size)
                % 2
        } else {
            self.min_size
        }
    }

    /// Goes on with these limits.
    fn narrow(&mut self, min: u16, max: u16, next: u16)
        ensures
            *final(self) == narrowed(*old(self), min, max, next),
    {
        self.min_size = min;
        self.max_size = max;
        self.successes = 0;
        self.failures = 0;
        if self.is_converged() {
            self.discovered_mtu = Some(min);
            self.phase = PmtudPhase::Complete;
        } else {
            self.current_size = next;
        }
    }

    /// The size passed.
    pub fn record_success(&mut self)
        requires
            old(self).wf(),
        ensures
            *final(self) == after_success(*old(self)),
            final(self).phase == PmtudPhase::Searching ==> final(self).wf(),
    {
        let size: u16 = self.current_size;
        let most: u16 = self.max_size;
        self.min_size = size;
        let next: u16 = if size < most {
            self.next_probe_size()
        } else {
            size
        };
        self.narrow(size, most, next);
    }

    /// The size did not pass.
    pub fn record_failure(&mut self)
        requires
            old(self).wf(),
        ensures
            *final(self) == after_failure(*old(self)),
            final(self).phase == PmtudPhase::Searching ==> final(self).wf(),
    {
        if self.failures < FAILURES_NEEDED - 1 {
            self.failures = self.failures + 1;
        } else {
            let least: u16 = self.min_size;
            let most: u16 = self.current_size - 1;
            self.max_size = most;
            let next: u16 = self.next_probe_size();
            self.narrow(least, most, next);
        }
    }

    /// A router reported its MTU.
    pub fn record_frag_needed(&mut self, mtu: u16)
        requires
            old(self).wf(),
        ensures
            *final(self) == after_report(*old(self), mtu),
            final(self).phase == PmtudPhase::Searching ==> final(self).wf(),
    {
        if self.min_size <= mtu && mtu < self.current_size {
            let least: u16 = self.min_size;
            self.narrow(least, mtu, mtu);
        } else {
            self.record_failure();
        }
    }

    /// The local interface refused a size, so that nothing was sent.
    pub fn record_refused(&mut self, size: u16)
        ensures
            *final(self) == after_refusal(*old(self), size),
            final(self).phase == PmtudPhase::Searching ==> final(self).wf(),
    {
        let least: u16 = self.min_size;
        let most: u16 = size.saturating_sub(1);
        self.max_size = most;
        let next: u16 = self.next_probe_size();
        self.narrow(least, most, next);
    }
}

/// Every answer narrows the search: a size that passed, one that was reported,
/// one that failed often enough and one that was refused each leave fewer
/// sizes to choose from, and a search that ends has found a size within its
/// limits.
pub proof fn law_search_narrows(s: PmtudState, mtu: u16)
    requires
        s.wf(),
        s.phase == PmtudPhase::Searching,
    ensures
        narrows(s, after_success(s)),
        s.failures + 1 >= FAILURES_NEEDED ==> narrows(s, after_failure(s)),
        s.min_size <= mtu < s.current_size ==> narrows(s, after_report(s, mtu)),
        narrows(s, after_refusal(s, s.current_size)),
{
}

/// Whether fewer sizes are left, and what was found lies within the limits.
pub open spec fn narrows(before: PmtudState, after: PmtudState) -> bool {
    &&& after.max_size - after.min_size < before.max_size - before.min_size
    &&& before.min_size <= after.min_size && after.max_size <= before.max_size
    &&& after.phase == PmtudPhase::Complete ==> after.discovered_mtu == Some(after.min_size)
}

/// Whether a search can still find the size `mtu`, and has found it if it is
/// over.
pub open spec fn homes_in(s: PmtudState, mtu: u16) -> bool {
    &&& s.min_size <= mtu <= s.max_size
    &&& s.phase == PmtudPhase::Complete ==> s.discovered_mtu == Some(mtu)
}

/// Where packets of up to `mtu` bytes pass and larger ones do not, and `mtu`
/// lies within the limits, the search never loses it: a size that passes, one
/// that fails for good and one that was refused on sending keep `mtu` within
/// the limits, with fewer sizes left, and when it ends it has found `mtu`.
pub proof fn law_search_finds_the_mtu(
    passed: &mut PmtudState,
    failed: &mut PmtudState,
    refused: &mut PmtudState,
    mtu: u16,
)
    requires
        call_ensures(PmtudState::record_success, (passed,), ()),
        call_ensures(PmtudState::record_failure, (failed,), ()),
        call_ensures(PmtudState::record_refused, (refused, old(refused).current_size), ()),
        *old(passed) == *old(failed),
        *old(passed) == *old(refused),
        old(passed).min_size < old(passed).current_size <= old(passed).max_size,
        old(passed).phase == PmtudPhase::Searching,
        old(passed).min_size <= mtu <= old(passed).max_size,
    ensures
        old(passed).current_size <= mtu ==> homes_in(*final(passed), mtu) && final(passed).max_size
            - final(passed).min_size < old(passed).max_size - old(passed).min_size,
        old(passed).current_size > mtu ==> homes_in(*final(failed), mtu) && homes_in(
            *final(refused),
            mtu,
        ),
        old(passed).current_size > mtu && old(failed).failures >= 1 ==> final(failed).max_size
            - final(failed).min_size < old(failed).max_size - old(failed).min_size,
        old(failed).failures == 0 ==> *final(failed) == (PmtudState {
            failures: 1,
            ..*old(failed)
        }),
        final(refused).max_size - final(refused).min_size < old(refused).max_size - old(refused).min_size,
{
}

/// A router's report of an MTU that is not below the path's, and below the
/// size that was tried, is used: no larger size is tried any more, and the
/// reported one is tried next unless it is known to pass. A report of another
/// size counts as a failure.
pub proof fn law_reported_mtu_tried_next(
    reported: &mut PmtudState,
    failed: &mut PmtudState,
    report: u16,
    mtu: u16,
)
    requires
        call_ensures(PmtudState::record_frag_needed, (reported, report), ()),
        call_ensures(PmtudState::record_failure, (failed,), ()),
        *old(reported) == *old(failed),
        old(reported).min_size < old(reported).current_size <= old(reported).max_size,
        old(reported).phase == PmtudPhase::Searching,
    ensures
        old(reported).min_size < report < old(reported).current_size ==> final(reported).current_size == report && final(reported).max_size == report && final(reported).min_size
            == old(reported).min_size && final(reported).phase == PmtudPhase::Searching && final(reported).failures == 0,
        report == old(reported).min_size ==> final(reported).phase == PmtudPhase::Complete && final(reported).discovered_mtu == Some(report),
        report < old(reported).min_size || report >= old(reported).current_size ==> *final(reported)
            == *final(failed),
        old(reported).min_size <= mtu <= report < old(reported).current_size ==> homes_in(
            *final(reported),
            mtu,
        ),
{
}

/// Each size that is tried halves what is left, so that a search over any
/// range takes no more sizes than the range has binary digits: of the sizes
/// above and those not above the one tried next, neither are more by two.
pub proof fn law_search_halves(
    passed: &mut PmtudState,
    failed: &mut PmtudState,
    state: &PmtudState,
    next: u16,
)
    requires
        call_ensures(PmtudState::record_success, (passed,), ()),
        call_ensures(PmtudState::record_failure, (failed,), ()),
        call_ensures(PmtudState::next_probe_size, (state,), next),
        *old(passed) == *old(failed),
        old(passed).min_size < old(passed).current_size <= old(passed).max_size,
        old(passed).phase == PmtudPhase::Searching,
        old(failed).failures >= 1,
        state.min_size < state.max_size,
    ensures
        final(passed).phase == PmtudPhase::Searching ==> in_the_middle(*final(passed)),
        final(failed).phase == PmtudPhase::Searching ==> in_the_middle(*final(failed)),
        state.min_size < next <= state.max_size,
        -1 <= (next - state.min_size) - (state.max_size - next) <= 1,
{
}

/// Whether the size being tried lies in the middle of what is left.
pub open spec fn in_the_middle(s: PmtudState) -> bool {
    &&& s.min_size < s.current_size <= s.max_size
    &&& -1 <= (s.current_size - s.min_size) - (s.max_size - s.current_size) <= 1
}

/// A search waits for the distance of the target, has no result, and ranges
/// from what every path of the family passes to what an Ethernet, or one with
/// jumbo frames, can carry. Begun, it tries the largest size first.
pub proof fn law_search_range(
    ipv6: bool,
    jumbo: bool,
    made: PmtudState,
    begun: &mut PmtudState,
    converged: bool,
)
    requires
        call_ensures(PmtudState::new, (ipv6, jumbo), made),
        call_ensures(PmtudState::start_search, (begun,), ()),
        call_ensures(PmtudState::is_converged, (&made,), converged),
        *old(begun) == made,
    ensures
        made.phase == PmtudPhase::WaitingForDestination,
        made.discovered_mtu is None,
        made.failures == 0,
        ipv6 ==> made.min_size == 1280,
        !ipv6 ==> made.min_size == 68,
        jumbo ==> made.max_size == 9216,
        !jumbo ==> made.max_size == 1500,
        final(begun).phase == PmtudPhase::Searching,
        final(begun).current_size == made.max_size,
        final(begun).min_size == made.min_size,
        final(begun).max_size == made.max_size,
        final(begun).discovered_mtu is None,
        final(begun).failures == 0,
        converged <==> made.min_size >= made.max_size,
{
}

} // verus!
