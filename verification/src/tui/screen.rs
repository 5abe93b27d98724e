//! What the interface shows, and what replay commands do.

use crate::prefs::{typed_key, Prefs};
use crate::session::{Hop, Session};
use crate::text::{copy_of, decimal, opt_text, push_decimal, push_text};
use crate::tui::keys::ReplayCommand;
use crate::tui::line::{
    add_blank, add_line, line_views, no_text, plain_line, Line, Role, SpanView,
};
use crate::tui::replay::{
    duration, format_replay_position, format_replay_time, index_for_time, position_text,
    replay_target_ms_from_delta, stepped, time_text, ReplayState, SessionChange,
};
use crate::tui::ui::{UiModel, UiState};
use vstd::prelude::*;

verus! {

/// How many addresses were left out when names were resolved.
#[derive(Clone, Copy, Debug, PartialEq, Eq, Structural)]
pub struct ResolveInfo {
    pub skipped_ipv4: usize,
    pub skipped_ipv6: usize,
}

impl Default for ResolveInfo {
    fn default() -> (r: ResolveInfo)
        ensures
            r == (ResolveInfo { skipped_ipv4: 0, skipped_ipv6: 0 }),
    {
        ResolveInfo { skipped_ipv4: 0, skipped_ipv6: 0 }
    }
}

/// What is said of the addresses that were left out.
pub open spec fn skipped_text(info: ResolveInfo) -> Seq<char> {
    if info.skipped_ipv6 > 0 {
        " ("@ + decimal(info.skipped_ipv6 as nat) + " IPv6 skipped)"@
    } else if info.skipped_ipv4 > 0 {
        " ("@ + decimal(info.skipped_ipv4 as nat) + " IPv4 skipped)"@
    } else {
        ""@
    }
}

/// The first status message: only where names were resolved to several
/// targets.
pub open spec fn resolved_text(info: Option<ResolveInfo>, targets: nat) -> Option<Seq<char>> {
    match info {
        Some(i) => if targets > 1 {
            Some(
                "Resolved "@ + decimal(targets) + " targets"@ + skipped_text(i)
                    + "; press l to list"@,
            )
        } else {
            None
        },
        None => None,
    }
}

/// The first status message.
pub fn resolve_status(info: Option<ResolveInfo>, targets: usize) -> (r: Option<String>)
    ensures
        opt_text(r) == resolved_text(info, targets as nat),
{
    match info {
        Some(i) => {
            if targets <= 1 {
                return None;
            }
            let mut skipped: String = copy_of("");
            if i.skipped_ipv6 > 0 {
                skipped = copy_of(" (");
                push_decimal(&mut skipped, i.skipped_ipv6 as u64);
                push_text(&mut skipped, " IPv6 skipped)");
            } else if i.skipped_ipv4 > 0 {
                skipped = copy_of(" (");
                push_decimal(&mut skipped, i.skipped_ipv4 as u64);
                push_text(&mut skipped, " IPv4 skipped)");
            }
            let mut out: String = copy_of("Resolved ");
            push_decimal(&mut out, targets as u64);
            push_text(&mut out, " targets");
            push_text(&mut out, skipped.as_str());
            push_text(&mut out, "; press l to list");
            Some(out)
        },
        None => None,
    }
}

/// What a replay command asks the program to do.
#[derive(Clone, Copy, Debug, PartialEq, Eq, Structural)]
pub enum ReplayEffect {
    /// Nothing.
    Nothing,
    /// To set the clock of the replay to a position.
    Clock(u64),
    /// To change the session on show.
    Session(SessionChange),
    /// To go faster or slower from a position; while the replay runs, its
    /// clock is to be set to that position.
    Speed { faster: bool, position: u64, running: bool },
}

/// The message after a seek.
pub open spec fn seek_text(moved: bool, replay: ReplayState) -> Seq<char> {
    (if moved {
        "Moved to "@
    } else {
        "Already at "@
    }) + position_text(
        replay.paused_at_elapsed_ms,
        duration(replay.events@),
        replay.current_index as nat,
        replay.events@.len(),
    )
}

/// A replay by what changes in it.
pub open spec fn replay_is(
    replay: ReplayState,
    before: ReplayState,
    index: nat,
    paused: bool,
    finished: bool,
    at: u64,
) -> bool {
    replay.events@ == before.events@ && replay.current_index == index && replay.paused == paused
        && replay.finished == finished && replay.paused_at_elapsed_ms == at
}

/// A position, at most the end.
pub open spec fn clipped(events: Seq<crate::state::ProbeEvent>, ms: u64) -> u64 {
    if ms <= duration(events) {
        ms
    } else {
        duration(events)
    }
}

/// The change from one number of events to another.
pub open spec fn change_between(from: usize, to: usize) -> SessionChange {
    if to == from {
        SessionChange::Keep
    } else if to < from {
        SessionChange::Rebuild(to)
    } else {
        SessionChange::Apply(from, to)
    }
}

/// What seeking to a position does.
pub open spec fn sought(
    before: UiState,
    after: UiState,
    effect: ReplayEffect,
    target_ms: u64,
    now: u64,
) -> bool {
    let old_replay = before.replay_state->0;
    let new_replay = after.replay_state->0;
    let at = clipped(old_replay.events@, target_ms);
    let index = index_for_time(old_replay.events@, at);
    &&& after.replay_state is Some
    &&& replay_is(
        new_replay,
        old_replay,
        index,
        true,
        index >= old_replay.events@.len(),
        at,
    )
    &&& after@ == (UiModel { replay: after.replay_state, ..before@ }).says(
        seek_text(index != old_replay.current_index, new_replay),
        now,
    )
    &&& effect == ReplayEffect::Session(change_between(old_replay.current_index, index as usize))
}

/// What going to the end does.
pub open spec fn sought_end(
    before: UiState,
    after: UiState,
    effect: ReplayEffect,
    now: u64,
) -> bool {
    let old_replay = before.replay_state->0;
    let total = duration(old_replay.events@);
    let n = old_replay.events@.len();
    &&& after.replay_state is Some
    &&& replay_is(after.replay_state->0, old_replay, n, true, true, total)
    &&& after@ == (UiModel { replay: after.replay_state, ..before@ }).says(
        "Moved to "@ + position_text(total, total, n, n),
        now,
    )
    &&& effect == ReplayEffect::Session(change_between(old_replay.current_index, n as usize))
}

/// What pausing or resuming does.
pub open spec fn toggled(
    before: UiState,
    after: UiState,
    effect: ReplayEffect,
    running_ms: u64,
    now: u64,
) -> bool {
    let old_replay = before.replay_state->0;
    &&& after.replay_state is Some
    &&& replay_is(
        after.replay_state->0,
        old_replay,
        old_replay.current_index as nat,
        !old_replay.paused,
        old_replay.finished,
        old_replay.position(running_ms),
    )
    &&& after@ == (UiModel { replay: after.replay_state, ..before@ }).says(
        if old_replay.paused {
            "Replay resumed"@
        } else {
            "Replay paused. Press p or Space to resume."@
        },
        now,
    )
    &&& effect == (if old_replay.paused {
        ReplayEffect::Clock(old_replay.paused_at_elapsed_ms)
    } else {
        ReplayEffect::Nothing
    })
}

/// What asking for another speed does.
pub open spec fn speed_asked(
    before: UiState,
    after: UiState,
    effect: ReplayEffect,
    faster: bool,
    running_ms: u64,
) -> bool {
    &&& after@ == before@
    &&& effect == (ReplayEffect::Speed {
        faster,
        position: before.replay_state->0.position(running_ms),
        running: !before.replay_state->0.paused,
    })
}

impl UiState {
    fn seek(&mut self, target_ms: u64, now: u64) -> (r: ReplayEffect)
        requires
            old(self).wf(),
            old(self).replay_state is Some,
        ensures
            final(self).wf(),
            sought(*old(self), *final(self), r, target_ms, now),
    {
        let mut effect: SessionChange = SessionChange::Keep;
        let mut text: String = String::new();
        if let Some(replay) = self.replay_state.take() {
            let mut replay: ReplayState = replay;
            let from: usize = replay.current_index;
            effect = replay.seek_to(target_ms);
            text = copy_of(
                if replay.current_index != from {
                    "Moved to "
                } else {
                    "Already at "
                },
            );
            let place: String = format_replay_position(
                replay.paused_at_elapsed_ms,
                replay.total(),
                replay.current_index,
                replay.events.len(),
            );
            push_text(&mut text, place.as_str());
            self.replay_state = Some(replay);
        }
        self.set_status(text.as_str(), now);
        ReplayEffect::Session(effect)
    }

    fn seek_end(&mut self, now: u64) -> (r: ReplayEffect)
        requires
            old(self).wf(),
            old(self).replay_state is Some,
        ensures
            final(self).wf(),
            sought_end(*old(self), *final(self), r, now),
    {
        let mut effect: SessionChange = SessionChange::Keep;
        let mut text: String = copy_of("Moved to ");
        if let Some(replay) = self.replay_state.take() {
            let mut replay: ReplayState = replay;
            effect = replay.seek_to_end();
            let n: usize = replay.events.len();
            let total: u64 = replay.total();
            let place: String = format_replay_position(total, total, n, n);
            push_text(&mut text, place.as_str());
            self.replay_state = Some(replay);
        }
        self.set_status(text.as_str(), now);
        ReplayEffect::Session(effect)
    }

    fn toggle_replay_pause(&mut self, running_ms: u64, now: u64) -> (r: ReplayEffect)
        requires
            old(self).wf(),
            old(self).replay_state is Some,
        ensures
            final(self).wf(),
            toggled(*old(self), *final(self), r, running_ms, now),
    {
        let mut effect: ReplayEffect = ReplayEffect::Nothing;
        let mut resumed: bool = false;
        if let Some(replay) = self.replay_state.take() {
            let mut replay: ReplayState = replay;
            if let Some(at) = replay.toggle_pause(running_ms) {
                effect = ReplayEffect::Clock(at);
                resumed = true;
            }
            self.replay_state = Some(replay);
        }
        self.set_status(
            if resumed {
                "Replay resumed"
            } else {
                "Replay paused. Press p or Space to resume."
            },
            now,
        );
        effect
    }

    fn ask_speed(&self, faster: bool, running_ms: u64) -> (r: ReplayEffect)
        requires
            self.replay_state is Some,
        ensures
            speed_asked(*self, *self, r, faster, running_ms),
    {
        match &self.replay_state {
            Some(replay) => ReplayEffect::Speed {
                faster,
                position: replay.current_ms(running_ms),
                running: !replay.paused,
            },
            None => ReplayEffect::Nothing,
        }
    }

    /// Carries out a replay command, with a message. `running_ms` is the
    /// position that the clock of the replay gives.
    pub fn run_replay(&mut self, command: ReplayCommand, running_ms: u64, now: u64) -> (r:
        ReplayEffect)
        requires
            old(self).wf(),
        ensures
            final(self).wf(),
            match (old(self).replay_state, command) {
                (None, _) => final(self)@ == old(self)@ && r == ReplayEffect::Nothing,
                (Some(_), ReplayCommand::TogglePause) => toggled(
                    *old(self),
                    *final(self),
                    r,
                    running_ms,
                    now,
                ),
                (Some(replay), ReplayCommand::Seek(delta)) => sought(
                    *old(self),
                    *final(self),
                    r,
                    stepped(replay.position(running_ms), delta),
                    now,
                ),
                (Some(_), ReplayCommand::Start) => sought(*old(self), *final(self), r, 0, now),
                (Some(_), ReplayCommand::End) => sought_end(*old(self), *final(self), r, now),
                (Some(_), ReplayCommand::Faster) => speed_asked(
                    *old(self),
                    *final(self),
                    r,
                    true,
                    running_ms,
                ),
                (Some(_), ReplayCommand::Slower) => speed_asked(
                    *old(self),
                    *final(self),
                    r,
                    false,
                    running_ms,
                ),
            },
    {
        let at: u64 = match &self.replay_state {
            Some(replay) => replay.current_ms(running_ms),
            None => {
                return ReplayEffect::Nothing;
            },
        };
        match command {
            ReplayCommand::TogglePause => self.toggle_replay_pause(running_ms, now),
            ReplayCommand::Seek(delta) => self.seek(replay_target_ms_from_delta(at, delta), now),
            ReplayCommand::Start => self.seek(0, now),
            ReplayCommand::End => self.seek_end(now),
            ReplayCommand::Faster => self.ask_speed(true, running_ms),
            ReplayCommand::Slower => self.ask_speed(false, running_ms),
        }
    }

    /// Plays what has become due, if a replay runs and there is a target to
    /// play it to. The end of the replay is announced.
    pub fn replay_tick(&mut self, running_ms: u64, has_target: bool, now: u64) -> (r: SessionChange)
        requires
            old(self).wf(),
        ensures
            final(self).wf(),
            old(self).replay_state is None || !has_target || !old(self).replay_state->0.runs() ==> {
                final(self)@ == old(self)@ && r == SessionChange::Keep
            },
            old(self).replay_state matches Some(before) ==> (has_target && before.runs() ==> {
                let after = final(self).replay_state->0;
                let due = crate::tui::replay::happened(before.events@, running_ms);
                let index = if due > before.current_index {
                    due
                } else {
                    before.current_index as nat
                };
                let ended = index >= before.events@.len();
                &&& final(self).replay_state is Some
                &&& replay_is(after, before, index, false, ended, before.paused_at_elapsed_ms)
                &&& r == change_between(before.current_index, index as usize)
                &&& final(self)@ == (if ended {
                    (UiModel { replay: final(self).replay_state, ..old(self)@ }).says(
                        "Replay complete"@,
                        now,
                    )
                } else {
                    UiModel { replay: final(self).replay_state, ..old(self)@ }
                })
            }),
    {
        let mut due: bool = false;
        if let Some(replay) = &self.replay_state {
            due = has_target && !replay.paused && !replay.finished;
        }
        if !due {
            return SessionChange::Keep;
        }
        let mut change: SessionChange = SessionChange::Keep;
        let mut ended: bool = false;
        if let Some(replay) = self.replay_state.take() {
            let mut replay: ReplayState = replay;
            proof {
                crate::tui::replay::law_happened(replay.events@, running_ms);
            }
            let count: usize = replay.events.len();
            assert(crate::tui::replay::happened(replay.events@, running_ms) <= count);
            change = replay.tick(running_ms);
            ended = replay.finished;
            self.replay_state = Some(replay);
        }
        if ended {
            self.set_status("Replay complete", now);
        }
        change
    }

    /// Preferences to keep: the theme and display mode in use, the API key as
    /// typed, and the choice about update checks as it was.
    pub fn final_prefs(&self, theme_names: &Vec<String>, no_update_check: Option<bool>) -> (r: Prefs)
        requires
            self.theme_index < theme_names@.len(),
        ensures
            opt_text(r.theme) == Some(theme_names@[self.theme_index as int]@),
            r.display_mode == Some(self.display_mode),
            opt_text(r.peeringdb_api_key) == (if self.settings.api_key@.len() == 0 {
                None
            } else {
                Some(self.settings.api_key@)
            }),
            r.no_update_check == no_update_check,
    {
        Prefs {
            theme: Some(copy_of(theme_names[self.theme_index].as_str())),
            display_mode: Some(self.display_mode),
            peeringdb_api_key: typed_key(self.settings.api_key.as_str()),
            no_update_check,
        }
    }
}

/// The rows of the screen, from the top.
#[derive(Clone, Copy, Debug, PartialEq, Eq, Structural)]
pub struct Rows {
    pub banner: Option<usize>,
    pub main: usize,
    pub progress: Option<usize>,
    pub status: usize,
}

/// The rows of the screen: a banner if there is an update, the main view, the
/// progress of a replay, the status bar.
pub fn rows(has_update: bool, has_replay: bool) -> (r: Rows)
    ensures
        r.banner == (if has_update {
            Some(0usize)
        } else {
            None
        }),
        r.main == (if has_update {
            1int
        } else {
            0
        }),
        r.progress == (if has_replay {
            Some((r.main + 1) as usize)
        } else {
            None
        }),
        r.status == r.main + 1 + (if has_replay {
            1int
        } else {
            0
        }),
{
    let main: usize = if has_update {
        1
    } else {
        0
    };
    Rows {
        banner: if has_update {
            Some(0)
        } else {
            None
        },
        main,
        progress: if has_replay {
            Some(main + 1)
        } else {
            None
        },
        status: if has_replay {
            main + 2
        } else {
            main + 1
        },
    }
}

/// The banner about an update.
pub fn banner(current: &str, version: &str) -> (r: String)
    ensures
        r@ == " Update available: v"@ + current@ + " -> "@ + version@
            + " | Press 'u' to dismiss "@,
{
    let mut out: String = copy_of(" Update available: v");
    push_text(&mut out, current);
    push_text(&mut out, " -> ");
    push_text(&mut out, version);
    push_text(&mut out, " | Press 'u' to dismiss ");
    out
}

/// The status bar: an update comes first, then the latest message, then the
/// keys that matter.
pub open spec fn status_bar(u: UiModel, current: Seq<char>, targets: nat) -> Seq<char> {
    match (u.update_available, u.status) {
        (Some(version), _) => "UPDATE: v"@ + current + " -> "@ + version
            + " available | Press 'u' to dismiss | ? for update command"@,
        (None, Some(s)) => s.0,
        (None, None) => if u.replay is Some {
            "q quit | p pause | Left/Right seek | [/] seek 5s | +/- speed | Home/End | ? help"@
        } else if targets > 1 {
            "q quit | Tab next | l list | o add | p pause | r reset | t theme | w display | s settings | e export | ? help"@
        } else {
            "q quit | o add | p pause | r reset | t theme | w display | s settings | e export | ? help"@
        },
    }
}

/// The status bar.
pub fn status_text(ui: &UiState, current: &str, targets: usize) -> (r: String)
    ensures
        r@ == status_bar(ui@, current@, targets as nat),
{
    match (&ui.update_available, &ui.status_message) {
        (Some(version), _) => {
            let mut out: String = copy_of("UPDATE: v");
            push_text(&mut out, current);
            push_text(&mut out, " -> ");
            push_text(&mut out, version.as_str());
            push_text(
                &mut out,
                " available | Press 'u' to dismiss | ? for update command",
            );
            out
        },
        (None, Some(s)) => copy_of(s.text.as_str()),
        (None, None) => if ui.replay_state.is_some() {
            copy_of(
                "q quit | p pause | Left/Right seek | [/] seek 5s | +/- speed | Home/End | ? help",
            )
        } else if targets > 1 {
            copy_of(
                "q quit | Tab next | l list | o add | p pause | r reset | t theme | w display | s settings | e export | ? help",
            )
        } else {
            copy_of(
                "q quit | o add | p pause | r reset | t theme | w display | s settings | e export | ? help",
            )
        },
    }
}

/// The label of the progress of a replay; the speed is given as text.
pub open spec fn progress(replay: ReplayState, running_ms: u64, speed: Seq<char>) -> Seq<char> {
    " "@ + (if replay.finished {
        "--"@
    } else if replay.paused {
        "||"@
    } else {
        ">>"@
    }) + " "@ + decimal(replay.current_index as nat) + "/"@ + decimal(replay.events@.len()) + " "@
        + time_text(replay.position(running_ms)) + " / "@ + time_text(duration(replay.events@)) + " "@
        + speed + "x"@ + (if duration(replay.events@) == 0 && replay.events@.len() > 0 {
        " instant"@
    } else {
        ""@
    }) + " "@
}

/// The label of the progress of a replay.
pub fn progress_label(replay: &ReplayState, running_ms: u64, speed: &str) -> (r: String)
    ensures
        r@ == progress(*replay, running_ms, speed@),
{
    let total: u64 = replay.total();
    let now: String = format_replay_time(replay.current_ms(running_ms));
    let end: String = format_replay_time(total);
    let mut out: String = copy_of(" ");
    push_text(
        &mut out,
        if replay.finished {
            "--"
        } else if replay.paused {
            "||"
        } else {
            ">>"
        },
    );
    push_text(&mut out, " ");
    push_decimal(&mut out, replay.current_index as u64);
    push_text(&mut out, "/");
    push_decimal(&mut out, replay.events.len() as u64);
    push_text(&mut out, " ");
    push_text(&mut out, now.as_str());
    push_text(&mut out, " / ");
    push_text(&mut out, end.as_str());
    push_text(&mut out, " ");
    push_text(&mut out, speed);
    push_text(&mut out, "x");
    push_text(
        &mut out,
        if total == 0 && replay.events.len() > 0 {
            " instant"
        } else {
            ""
        },
    );
    push_text(&mut out, " ");
    out
}

/// The lines shown while there is no target yet.
pub open spec fn empty_lines(version: Seq<char>) -> Seq<Seq<SpanView>> {
    Seq::empty().push(no_text()).push(plain_line("ttl v"@ + version, Role::Header)).push(
        no_text(),
    ).push(plain_line("No targets yet"@, Role::Dim)).push(no_text()).push(
        plain_line("Press 'o' to add a target"@, Role::Text),
    )
}

/// The lines shown while there is no target yet.
pub fn empty_screen(version: &str) -> (r: Vec<Line>)
    ensures
        line_views(r@) == empty_lines(version@),
{
    let mut title: String = copy_of("ttl v");
    push_text(&mut title, version);
    let mut lines: Vec<Line> = Vec::new();
    assert(line_views(lines@) =~= Seq::empty());
    add_blank(&mut lines);
    add_line(&mut lines, title.as_str(), Role::Header);
    add_blank(&mut lines);
    add_line(&mut lines, "No targets yet", Role::Dim);
    add_blank(&mut lines);
    add_line(&mut lines, "Press 'o' to add a target", Role::Text);
    lines
}

/// The status bar while there is no target yet.
pub fn empty_status(ui: &UiState) -> (r: String)
    ensures
        r@ == (match ui@.status {
            Some(s) => s.0,
            None => "q quit | o add target | t theme | s settings | ? help"@,
        }),
{
    match &ui.status_message {
        Some(s) => copy_of(s.text.as_str()),
        None => copy_of("q quit | o add target | t theme | s settings | ? help"),
    }
}

/// How many hops have been probed.
pub open spec fn probed(hops: Seq<Hop>) -> nat
    decreases hops.len(),
{
    if hops.len() == 0 {
        0
    } else {
        probed(hops.drop_last()) + (if hops.last().sent > 0 {
            1nat
        } else {
            0
        })
    }
}

/// How many hops of a session have been probed.
pub fn hop_count(session: &Session) -> (r: usize)
    ensures
        r == probed(session.hops@),
{
    let mut n: usize = 0;
    let mut i: usize = 0;
    assert(session.hops@.take(0) =~= Seq::empty());
    while i < session.hops.len()
        invariant
            i <= session.hops.len(),
            n <= i,
            n == probed(session.hops@.take(i as int)),
        decreases session.hops.len() - i,
    {
        assert(session.hops@.take(i + 1).drop_last() =~= session.hops@.take(i as int));
        if session.hops[i].sent > 0 {
            n = n + 1;
        }
        i = i + 1;
    }
    assert(session.hops@.take(session.hops@.len() as int) =~= session.hops@);
    n
}

/// The place of the probed hop that is selected, if it is shown in detail.
pub fn detailed_hop(ui: &UiState, session: &Session) -> (r: Option<usize>)
    ensures
        match (ui.show_hop_detail, ui.selected) {
            (true, Some(n)) => match r {
                Some(i) => i < session.hops@.len() && session.hops@[i as int].sent > 0 && probed(
                    session.hops@.take(i as int),
                ) == n,
                None => probed(session.hops@) <= n,
            },
            _ => r is None,
        },
{
    if !ui.show_hop_detail {
        return None;
    }
    match ui.selected {
        Some(n) => {
            let mut seen: usize = 0;
            let mut i: usize = 0;
            assert(session.hops@.take(0) =~= Seq::empty());
            while i < session.hops.len()
                invariant
                    i <= session.hops.len(),
                    seen <= i,
                    seen <= n,
                    seen == probed(session.hops@.take(i as int)),
                    ui.show_hop_detail,
                    ui.selected == Some(n),
                decreases session.hops.len() - i,
            {
                assert(session.hops@.take(i + 1).drop_last() =~= session.hops@.take(i as int));
                if session.hops[i].sent > 0 {
                    if seen == n {
                        return Some(i);
                    }
                    seen = seen + 1;
                }
                i = i + 1;
            }
            assert(session.hops@.take(session.hops@.len() as int) =~= session.hops@);
            None
        },
        None => None,
    }
}

} // verus!
