//! What keys and replays come to.

use crate::prefs::DisplayMode;
use crate::session::{Address, Hop, Session};
use crate::state::ProbeEvent;
use crate::text::{decimal, opt_text};
use crate::tui::edit::{delete_char, erase_char, split, type_char};
use crate::tui::key::Key;
use crate::tui::keys::{key_step, Action, ActionView, Context, ReplayCommand};
use crate::tui::line::{popup, Rect};
use crate::tui::replay::{
    duration, format_replay_time, happened, in_time, law_by_time, law_happened,
    replay_event_index_for_time, replay_target_ms_from_delta, ReplayState, SessionChange,
};
use crate::tui::screen::{detailed_hop, hop_count, probed, rows, ReplayEffect, Rows};
use crate::tui::settings::{SettingsState, SettingsView};
use crate::tui::target_input::{InputAction, TargetInputState};
use crate::tui::targets::{extract_target_infos, TargetInfo};
use crate::tui::ui::{find_target, AddReply, UiModel, UiState};
use vstd::prelude::*;

verus! {

/// Whether nothing covers the main view.
pub open spec fn uncovered(u: UiModel) -> bool {
    !u.show_help && !u.show_target_input && !u.show_settings && !u.show_hop_detail
        && !u.show_target_list
}

/// The handler does what the step says; the laws below are of the step.
pub proof fn law_handler_steps(
    ui: &mut UiState,
    key: Key,
    control: bool,
    ctx: &Context,
    r: Action,
)
    requires
        call_ensures(UiState::handle_key, (ui, key, control, ctx), r),
    ensures
        final(ui)@ == key_step(old(ui)@, key, control, *ctx).0,
        r@ == key_step(old(ui)@, key, control, *ctx).1,
{
}

/// The program is left by `q` or Ctrl-C in the main view, and by no other
/// key. Leaving changes nothing.
pub proof fn law_only_quit_keys_quit(u: UiModel, key: Key, control: bool, ctx: Context)
    ensures
        (key_step(u, key, control, ctx).1 is Quit) <==> uncovered(u) && (key matches Key::Char(c)
            && (c == 'q' || c == '\x03' || (c == 'c' && control))),
        (key_step(u, key, control, ctx).1 is Quit) ==> key_step(u, key, control, ctx).0 == u,
{
}

/// Any key closes the help, and does nothing else.
pub proof fn law_any_key_closes_help(u: UiModel, key: Key, control: bool, ctx: Context)
    requires
        u.show_help,
    ensures
        key_step(u, key, control, ctx).0 == (UiModel { show_help: false, ..u }),
        key_step(u, key, control, ctx).1 is Keep,
{
}

/// Escape closes what is open, and one thing at a time; in the main view it
/// takes the selection away.
pub proof fn law_escape_closes(u: UiModel, control: bool, ctx: Context)
    ensures
        ({
            let after = key_step(u, Key::Esc, control, ctx).0;
            &&& u.show_help ==> !after.show_help
            &&& !u.show_help && u.show_target_input ==> !after.show_target_input
                && after.input.line.text.len() == 0 && after.show_settings == u.show_settings
            &&& !u.show_help && !u.show_target_input && u.show_settings ==> !after.show_settings
                && after.theme_index == u.settings.theme && after.display_mode == u.settings.mode
            &&& !u.show_help && !u.show_target_input && !u.show_settings && u.show_hop_detail
                ==> !after.show_hop_detail && after.selected == u.selected
            &&& !u.show_help && !u.show_target_input && !u.show_settings && !u.show_hop_detail
                && u.show_target_list ==> !after.show_target_list && after.selected_target
                == u.selected_target
            &&& uncovered(u) ==> after == (UiModel { selected: None, ..u })
        }),
{
}

/// Tab shows the next target and back-tab the one before; each undoes the
/// other, and they go round.
pub proof fn law_targets_go_round(u: UiModel, control: bool, ctx: Context)
    requires
        uncovered(u),
        ctx.targets@.len() > 1,
        u.selected_target < ctx.targets@.len() <= usize::MAX,
    ensures
        ({
            let next = key_step(u, Key::Tab, control, ctx).0;
            let before = key_step(u, Key::BackTab, control, ctx).0;
            &&& next.selected_target == (u.selected_target + 1) % (ctx.targets@.len() as int)
            &&& key_step(next, Key::BackTab, control, ctx).0.selected_target == u.selected_target
            &&& key_step(before, Key::Tab, control, ctx).0.selected_target == u.selected_target
            &&& next.selected is None
            &&& next.paused == ctx.paused@[next.selected_target as int]
            &&& key_step(u, Key::Char('n'), control, ctx).0 == next
            &&& key_step(u, Key::Char('N'), control, ctx).0 == before
        }),
{
    let n = ctx.targets@.len() as int;
    let i = u.selected_target as int;
    if i + 1 < n {
        assert((i + 1) % n == i + 1) by (nonlinear_arith)
            requires
                0 <= i + 1 < n,
        ;
    } else {
        assert(i + 1 == n);
        assert(n % n == 0) by (nonlinear_arith)
            requires
                n > 0,
        ;
    }
}

/// Down selects the hop below and up the one above; each undoes the other,
/// and they go round. Without a selection down starts at the first hop and up
/// at the last.
pub proof fn law_hops_go_round(u: UiModel, control: bool, ctx: Context)
    requires
        uncovered(u),
        ctx.hop_count > 0,
        u.selected matches Some(i) ==> i < ctx.hop_count,
    ensures
        ({
            let down = key_step(u, Key::Down, control, ctx).0;
            let up = key_step(u, Key::Up, control, ctx).0;
            &&& u.selected is None ==> down.selected == Some(0usize) && up.selected == Some(
                (ctx.hop_count - 1) as usize,
            )
            &&& u.selected matches Some(i) ==> (i + 1 < ctx.hop_count ==> down.selected == Some(
                (i + 1) as usize,
            )) && (i + 1 == ctx.hop_count ==> down.selected == Some(0usize))
                && key_step(down, Key::Up, control, ctx).0.selected == u.selected && key_step(
                up,
                Key::Down,
                control,
                ctx,
            ).0.selected == u.selected
            &&& key_step(u, Key::Char('j'), control, ctx).0 == down
            &&& key_step(u, Key::Char('k'), control, ctx).0 == up
        }),
{
}

/// In the details of a hop the digits show the hop of that number, as far as
/// there is one; up and down stop at the ends.
pub proof fn law_digits_show_hops(u: UiModel, c: char, control: bool, ctx: Context)
    requires
        u.show_hop_detail,
        !u.show_help && !u.show_target_input && !u.show_settings,
        '1' <= c <= '9',
        ctx.hop_count > 0,
    ensures
        ({
            let n = c as int - '0' as int;
            let after = key_step(u, Key::Char(c), control, ctx).0;
            &&& n <= ctx.hop_count ==> (after.selected matches Some(i) && i == n - 1)
            &&& n > ctx.hop_count ==> (after.selected matches Some(i) && i == ctx.hop_count - 1)
            &&& after.show_hop_detail
        }),
{
}

/// In the list of targets the digits show the target of that number, if there
/// is one; enter shows the one that is marked.
pub proof fn law_digits_show_targets(u: UiModel, c: char, control: bool, ctx: Context)
    requires
        u.show_target_list,
        !u.show_help && !u.show_target_input && !u.show_settings && !u.show_hop_detail,
        '1' <= c <= '9',
        u.target_list_index < ctx.targets@.len() <= usize::MAX,
    ensures
        ({
            let n = c as int - '0' as int;
            let after = key_step(u, Key::Char(c), control, ctx).0;
            let entered = key_step(u, Key::Enter, control, ctx).0;
            &&& n <= ctx.targets@.len() ==> after.selected_target == n - 1
                && !after.show_target_list && after.paused == ctx.paused@[n - 1]
            &&& n > ctx.targets@.len() ==> after == u
            &&& entered.selected_target == u.target_list_index && !entered.show_target_list
        }),
{
}

/// A trace that is paused goes on and one that goes on is paused, and the
/// tracer is told what is now shown. A replay is asked to do so itself.
pub proof fn law_pausing_toggles(u: UiModel, control: bool, ctx: Context)
    requires
        uncovered(u),
    ensures
        ({
            let (after, action) = key_step(u, Key::Char('p'), control, ctx);
            &&& u.replay is None ==> after.paused != u.paused && action == ActionView::SetPaused(
                after.paused,
            ) && key_step(after, Key::Char('p'), control, ctx).0.paused == u.paused
            &&& u.replay is Some ==> after == u && action == ActionView::Replay(
                ReplayCommand::TogglePause,
            )
            &&& key_step(u, Key::Char(' '), control, ctx) == (after, action)
        }),
{
}

/// Letters of the main view do what they stand for.
pub proof fn law_letters_of_the_main_view(u: UiModel, control: bool, ctx: Context)
    requires
        uncovered(u),
    ensures
        key_step(u, Key::Char('r'), control, ctx).1 is ResetStats,
        key_step(u, Key::Char('e'), control, ctx).1 is Export,
        key_step(u, Key::Char('?'), control, ctx).0.show_help,
        key_step(u, Key::Char('h'), control, ctx).0.show_help,
        key_step(u, Key::Char('s'), control, ctx).0.show_settings,
        key_step(u, Key::Char('o'), control, ctx).0.show_target_input <==> u.replay is None
            && ctx.can_add,
        key_step(u, Key::Char('l'), control, ctx).0.show_target_list <==> ctx.targets@.len() > 1,
        key_step(u, Key::Char('u'), control, ctx).0.update_available is None,
        key_step(u, Key::Enter, control, ctx).0.show_hop_detail <==> u.selected is Some,
        key_step(u, Key::Char('w'), control, ctx).0.display_mode == (match u.display_mode {
            DisplayMode::Auto => DisplayMode::Compact,
            DisplayMode::Compact => DisplayMode::Wide,
            DisplayMode::Wide => DisplayMode::Auto,
        }),
{
}

/// A replay is moved by half a second with the arrows and by five with the
/// brackets, to its ends, and made faster or slower; without a replay these
/// keys do nothing.
pub proof fn law_keys_of_a_replay(u: UiModel, control: bool, ctx: Context)
    requires
        uncovered(u),
    ensures
        u.replay is Some ==> {
            &&& key_step(u, Key::Left, control, ctx).1 matches ActionView::Replay(
                ReplayCommand::Seek(by),
            ) && by == -500
            &&& key_step(u, Key::Right, control, ctx).1 matches ActionView::Replay(
                ReplayCommand::Seek(by),
            ) && by == 500
            &&& key_step(u, Key::Char('['), control, ctx).1 matches ActionView::Replay(
                ReplayCommand::Seek(by),
            ) && by == -5000
            &&& key_step(u, Key::Char(']'), control, ctx).1 matches ActionView::Replay(
                ReplayCommand::Seek(by),
            ) && by == 5000
            &&& key_step(u, Key::Home, control, ctx).1 == ActionView::Replay(ReplayCommand::Start)
            &&& key_step(u, Key::End, control, ctx).1 == ActionView::Replay(ReplayCommand::End)
            &&& key_step(u, Key::Char('+'), control, ctx).1 == ActionView::Replay(
                ReplayCommand::Faster,
            )
            &&& key_step(u, Key::Char('-'), control, ctx).1 == ActionView::Replay(
                ReplayCommand::Slower,
            )
        },
        u.replay is None ==> key_step(u, Key::Left, control, ctx).1 is Keep && key_step(
            u,
            Key::End,
            control,
            ctx,
        ).1 is Keep,
{
}

/// A target that was typed is handed over without the white space around it,
/// once, and only if there is somebody to take it.
pub proof fn law_typed_target_submitted(u: UiModel, control: bool, ctx: Context)
    requires
        !u.show_help,
        u.show_target_input,
    ensures
        ({
            let (after, action) = key_step(u, Key::Enter, control, ctx);
            let host = crate::fields::trimmed(u.input.line.text);
            &&& after == u
            &&& (action is Submit) <==> host.len() > 0 && !u.input.resolving && ctx.can_add
            &&& action matches ActionView::Submit(given) ==> given == host
        }),
{
}

/// Typing puts a character in front of the cursor, and erasing takes it away
/// again.
pub proof fn law_typing_into_the_target(u: UiModel, c: char, ctx: Context)
    requires
        !u.show_help,
        u.show_target_input,
        ' ' <= c <= '~',
        0 <= u.input.line.at <= u.input.line.text.len(),
    ensures
        ({
            let typed = key_step(u, Key::Char(c), false, ctx).0;
            let at = u.input.line.at;
            &&& typed.input.line.text.len() == u.input.line.text.len() + 1
            &&& typed.input.line.text[at] == c
            &&& typed.input.line.text.take(at) == u.input.line.text.take(at)
            &&& typed.input.line.text.skip(at + 1) == u.input.line.text.skip(at)
            &&& typed.input.line.at == at + 1
            &&& key_step(typed, Key::Backspace, false, ctx).0.input.line == u.input.line
        }),
{
    let typed = key_step(u, Key::Char(c), false, ctx).0;
    let at = u.input.line.at;
    assert(typed.input.line.text.take(at) =~= u.input.line.text.take(at));
    assert(typed.input.line.text.skip(at + 1) =~= u.input.line.text.skip(at));
    crate::tui::edit::law_erase_undoes_typing(u.input.line, c);
}

/// In the settings tab goes round the sections, of which the third is there
/// only with exchanges; what was typed as a key is handed over on closing.
pub proof fn law_sections_of_the_settings(u: UiModel, control: bool, ctx: Context)
    requires
        !u.show_help,
        !u.show_target_input,
        u.show_settings,
        u.settings.section <= 2,
    ensures
        ({
            let after = key_step(u, Key::Tab, control, ctx).0;
            let closed = key_step(u, Key::Esc, control, ctx);
            &&& ctx.ix_enabled ==> (u.settings.section < 2 ==> after.settings.section
                == u.settings.section + 1) && (u.settings.section == 2 ==> after.settings.section
                == 0)
            &&& !ctx.ix_enabled && u.settings.section < 2 ==> after.settings.section == 1
                - u.settings.section
            &&& ctx.ix_enabled ==> (closed.1 matches ActionView::SetApiKey(key) && (key is None
                <==> u.settings.key.text.len() == 0) && (key matches Some(text) ==> text
                == u.settings.key.text))
            &&& !ctx.ix_enabled ==> closed.1 is Keep
        }),
{
}

/// Themes are chosen by up and down in the first section, within their
/// number, and shown at once.
pub proof fn law_theme_chosen(u: UiModel, control: bool, ctx: Context)
    requires
        !u.show_help,
        !u.show_target_input,
        u.show_settings,
        u.settings.section == 0,
        u.settings.theme < ctx.theme_names@.len() <= usize::MAX,
    ensures
        ({
            let down = key_step(u, Key::Down, control, ctx).0;
            let up = key_step(u, Key::Up, control, ctx).0;
            &&& u.settings.theme + 1 < ctx.theme_names@.len() ==> down.settings.theme
                == u.settings.theme + 1
            &&& u.settings.theme + 1 == ctx.theme_names@.len() ==> down.settings.theme
                == u.settings.theme
            &&& u.settings.theme > 0 ==> up.settings.theme == u.settings.theme - 1
            &&& u.settings.theme == 0 ==> up.settings.theme == 0
            &&& down.theme_index == down.settings.theme && up.theme_index == up.settings.theme
        }),
{
}

/// The events of a replay are those of the session in the order of time, and
/// it starts before the first.
pub proof fn law_replay_in_time(events: Vec<ProbeEvent>, r: ReplayState, total: u64)
    requires
        call_ensures(ReplayState::new, (events,), r),
        call_ensures(ReplayState::total, (&r,), total),
    ensures
        r.events@.len() == events@.len(),
        forall|i: int, j: int|
            0 <= i < j < r.events@.len() ==> (#[trigger] r.events@[i]).offset_ms <= (
            #[trigger] r.events@[j]).offset_ms,
        r.events@.to_multiset() == events@.to_multiset(),
        r.current_index == 0 && !r.paused && !r.finished,
        forall|i: int| 0 <= i < r.events@.len() ==> (#[trigger] r.events@[i]).offset_ms <= total,
        r.events@.len() > 0 ==> total == r.events@.last().offset_ms,
{
    law_by_time(events@);
}

/// After a move to a point in time exactly the events up to it have happened,
/// none at the very start; it is over if all have, and the session is brought
/// from where it was to where it is.
pub proof fn law_seek_to_a_time(replay: &mut ReplayState, target_ms: u64, r: SessionChange, i: int)
    requires
        call_ensures(ReplayState::seek_to, (replay, target_ms), r),
        old(replay).wf(),
        0 <= i < old(replay).events@.len(),
    ensures
        final(replay).events@ == old(replay).events@,
        final(replay).paused,
        target_ms > 0 && target_ms <= duration(old(replay).events@) ==> (old(
            replay).events@[i].offset_ms <= target_ms <==> i < final(replay).current_index),
        target_ms == 0 ==> final(replay).current_index == 0,
        final(replay).finished <==> final(replay).current_index == old(replay).events@.len(),
        final(replay).paused_at_elapsed_ms <= target_ms,
        r matches SessionChange::Keep ==> final(replay).current_index == old(replay).current_index,
        r matches SessionChange::Apply(from, to) ==> from == old(replay).current_index && to
            == final(replay).current_index && from < to,
        r matches SessionChange::Rebuild(to) ==> to == final(replay).current_index && to < old(
            replay).current_index,
{
    law_happened(old(replay).events@, final(replay).paused_at_elapsed_ms);
}

/// As time runs the events that are due are applied, in their order and each
/// once; nothing happens while it is paused or over.
pub proof fn law_due_events_applied(replay: &mut ReplayState, ms: u64, r: SessionChange, i: int)
    requires
        call_ensures(ReplayState::tick, (replay, ms), r),
        old(replay).wf(),
        0 <= i < old(replay).events@.len() <= usize::MAX,
    ensures
        final(replay).current_index >= old(replay).current_index,
        old(replay).paused || old(replay).finished ==> *final(replay) == *old(replay) && (
        r is Keep),
        !old(replay).paused && !old(replay).finished && i >= old(replay).current_index ==> (old(
            replay).events@[i].offset_ms <= ms <==> i < final(replay).current_index),
        r matches SessionChange::Apply(from, to) ==> from == old(replay).current_index && to
            == final(replay).current_index && from < to,
        (r is Keep) ==> final(replay).current_index == old(replay).current_index,
        !(r is Rebuild),
{
    law_happened(old(replay).events@, ms);
}

/// Pausing keeps the point in time, and going on starts from it.
pub proof fn law_pause_keeps_the_time(
    pausing: &mut ReplayState,
    going: &mut ReplayState,
    ms: u64,
    later: u64,
    first: Option<u64>,
    second: Option<u64>,
)
    requires
        call_ensures(ReplayState::toggle_pause, (pausing, ms), first),
        call_ensures(ReplayState::toggle_pause, (going, later), second),
        *old(going) == *final(pausing),
        !old(pausing).paused,
        !old(pausing).finished,
    ensures
        final(pausing).paused,
        first is None,
        second == Some(ms),
        !final(going).paused,
        final(going).current_index == old(pausing).current_index,
{
}

/// A move to the end applies all that is left.
pub proof fn law_seek_to_the_end(replay: &mut ReplayState, r: SessionChange)
    requires
        call_ensures(ReplayState::seek_to_end, (replay,), r),
        old(replay).wf(),
    ensures
        final(replay).current_index == old(replay).events@.len(),
        final(replay).finished && final(replay).paused,
        old(replay).current_index < old(replay).events@.len() ==> r == SessionChange::Apply(
            old(replay).current_index,
            final(replay).current_index,
        ),
        old(replay).current_index == old(replay).events@.len() ==> (r is Keep),
{
}

/// A step in time goes no further back than the start.
pub proof fn law_step_in_time(current: u64, delta: i64, r: u64)
    requires
        call_ensures(replay_target_ms_from_delta, (current, delta), r),
    ensures
        delta >= 0 && current + delta <= u64::MAX ==> r == current + delta,
        delta < 0 ==> r == (if current + delta < 0 {
            0
        } else {
            current + delta
        }),
{
}

/// Times are told in minutes, seconds and tenths; within the first minute in
/// seconds and tenths.
pub proof fn law_times_told(
    minutes: nat,
    seconds: nat,
    tenths: nat,
    rest: nat,
    ms: u64,
    r: String,
)
    requires
        call_ensures(format_replay_time, (ms,), r),
        ms == minutes * 60_000 + seconds * 1000 + tenths * 100 + rest,
        seconds < 60,
        tenths < 10,
        rest < 100,
    ensures
        minutes == 0 ==> r@ == decimal(seconds) + "."@ + decimal(tenths) + "s"@,
        minutes > 0 && seconds >= 10 ==> r@ == decimal(minutes) + ":"@ + decimal(seconds) + "."@
            + decimal(tenths),
        minutes > 0 && seconds < 10 ==> r@ == decimal(minutes) + ":"@ + ("0"@ + decimal(seconds))
            + "."@ + decimal(tenths),
{
    assert(ms / 1000 == minutes * 60 + seconds);
    assert((minutes * 60 + seconds) / 60 == minutes);
    assert((minutes * 60 + seconds) % 60 == seconds);
    assert((ms % 1000) / 100 == tenths);
}

/// The rows of the screen are below one another: the banner and the progress
/// only where there is something to show.
pub proof fn law_rows_below_each_other(has_update: bool, has_replay: bool, r: Rows)
    requires
        call_ensures(rows, (has_update, has_replay), r),
    ensures
        r.banner is Some <==> has_update,
        r.progress is Some <==> has_replay,
        r.banner matches Some(b) ==> b < r.main,
        r.progress matches Some(p) ==> r.main < p < r.status,
        r.main < r.status,
{
}

/// The hops that are shown are those that were probed, and the one with the
/// details is the one selected among them.
pub proof fn law_selected_hop_detailed(
    session: &Session,
    ui: &UiState,
    n: usize,
    r: Option<usize>,
)
    requires
        call_ensures(hop_count, (session,), n),
        call_ensures(detailed_hop, (ui, session), r),
    ensures
        n == session.hops@.filter(|hop: Hop| hop.sent > 0).len(),
        r is Some ==> ui.show_hop_detail && ui.selected is Some,
        r matches Some(i) ==> i < session.hops@.len() && session.hops@[i as int].sent > 0
            && session.hops@.take(i as int).filter(|hop: Hop| hop.sent > 0).len()
            == ui.selected->0,
        ui.show_hop_detail && (ui.selected matches Some(k) && k < n) ==> r is Some,
{
    lemma_probed(session.hops@);
    if let Some(i) = r {
        lemma_probed(session.hops@.take(i as int));
    }
}

/// The hops that were probed, counted.
proof fn lemma_probed(hops: Seq<Hop>)
    ensures
        probed(hops) == hops.filter(|hop: Hop| hop.sent > 0).len(),
    decreases hops.len(),
{
    reveal(Seq::filter);
    if hops.len() > 0 {
        lemma_probed(hops.drop_last());
    }
}

/// A message disappears after three seconds.
pub proof fn law_messages_disappear(ui: &mut UiState, now: u64)
    requires
        call_ensures(UiState::clear_old_status, (ui, now), ()),
    ensures
        old(ui)@.status matches Some(s) ==> (now > s.1 + 3_000_000_000 ==> final(ui)@.status
            is None) && (now <= s.1 + 3_000_000_000 ==> final(ui)@.status == old(ui)@.status),
        final(ui)@.selected == old(ui)@.selected && final(ui)@.paused == old(ui)@.paused,
{
}

/// A target that was added is shown, at the place where it stands or is put;
/// one that was refused leaves everything but the message as it was.
pub proof fn law_added_target_shown(
    ui: &mut UiState,
    reply: &AddReply,
    targets: &mut Vec<Address>,
    now: u64,
)
    requires
        call_ensures(UiState::take_add_reply, (ui, reply, targets, now), ()),
        old(ui)@.input.pending,
        old(targets)@.len() < usize::MAX,
    ensures
        reply matches AddReply::Added { address, name, existed } ==> {
            &&& final(ui)@.selected_target < final(targets)@.len()
            &&& final(targets)@[final(ui)@.selected_target as int].ip == address.ip
            &&& !final(ui)@.show_target_input
            &&& final(targets)@.len() <= old(targets)@.len() + 1
            &&& (exists|i: int|
                0 <= i < old(targets)@.len() && (#[trigger] old(targets)@[i]).ip == address.ip)
                ==> final(targets)@ == old(targets)@
        },
        reply matches AddReply::Refused(message) ==> final(targets)@ == old(targets)@ && final(
            ui)@.input.error == Some(message@) && final(ui)@.input.line == old(ui)@.input.line
            && final(ui)@.show_target_input == old(ui)@.show_target_input,
{
    if let AddReply::Added { address, name, existed } = reply {
        lemma_place(old(targets)@, address.ip);
        let place = crate::tui::ui::place_of(old(targets)@, address.ip);
        if place >= old(targets)@.len() {
            assert(final(targets)@[place as int] == final(targets)@.last());
            assert(final(targets)@.last()@.ip == address@.ip);
        }
    }
}

/// Where an address stands among targets.
proof fn lemma_place(targets: Seq<Address>, ip: crate::addr::IpAddr)
    ensures
        ({
            let place = crate::tui::ui::place_of(targets, ip);
            &&& place <= targets.len()
            &&& place < targets.len() ==> targets[place as int].ip == ip
            &&& forall|i: int| 0 <= i < place ==> (#[trigger] targets[i]).ip != ip
        }),
    decreases targets.len(),
{
    if targets.len() > 0 && targets[0].ip != ip {
        let rest = targets.skip(1);
        lemma_place(rest, ip);
        let place = crate::tui::ui::place_of(targets, ip);
        assert forall|i: int| 0 <= i < place implies (#[trigger] targets[i]).ip != ip by {
            if i > 0 {
                assert(rest[i - 1] == targets[i]);
            }
        }
        if place < targets.len() {
            assert(rest[place - 1] == targets[place as int]);
        }
    }
}

/// A target is found where it first stands.
pub proof fn law_target_found(targets: &Vec<Address>, ip: crate::addr::IpAddr, r: usize)
    requires
        call_ensures(find_target, (targets, ip), r),
    ensures
        r < targets@.len() ==> targets@[r as int].ip == ip,
        forall|i: int| 0 <= i < r && i < targets@.len() ==> (#[trigger] targets@[i]).ip != ip,
{
    lemma_place(targets@, ip);
}

/// A target is listed with its address, its distance and the loss at that
/// distance, where they are known.
pub proof fn law_targets_listed(
    sessions: &Vec<Session>,
    targets: &Vec<Address>,
    r: Vec<TargetInfo>,
    i: int,
)
    requires
        call_ensures(extract_target_infos, (sessions, targets), r),
        0 <= i < targets@.len(),
    ensures
        r@.len() == targets@.len(),
        r@[i].ip@ == targets@[i].text@,
        crate::session::session_of(sessions@, targets@[i].ip) matches Some(s) ==> (
        s.dest_ttl matches Some(ttl) ==> r@[i].hops_str@ == decimal(ttl as nat) + " hops"@ && (1
            <= ttl <= s.hops@.len() ==> r@[i].loss_str@ == s.hops@[ttl - 1].loss@ + "%"@)),
{
    let info = r@[i]@;
    assert(info.ip == r@[i].ip@);
}

/// A popup is as large as it is to be, but leaves a margin on the screen.
pub proof fn law_popup_fits_the_screen(area: Rect, width: u16, height: usize, r: Rect)
    requires
        call_ensures(popup, (area, width, height), r),
        area.x + area.width <= 65535,
        area.y + area.height <= 65535,
    ensures
        r.width <= width,
        area.width >= 4 ==> r.width + 4 <= area.width || r.width == 0,
        width + 4 <= area.width ==> r.width == width,
        height + 4 <= area.height ==> r.height == height,
        r.height <= height,
        area.x <= r.x && r.x + r.width <= area.x + area.width,
        area.y <= r.y && r.y + r.height <= area.y + area.height,
        area.width - 1 <= 2 * (r.x - area.x) + r.width <= area.width,
        area.height - 1 <= 2 * (r.y - area.y) + r.height <= area.height,
{
}

/// Ages are told in the largest unit that has passed.
pub proof fn law_ages_told(fetched_at: u64, now: u64, r: String)
    requires
        call_ensures(SettingsView::format_cache_age, (fetched_at, now), r),
        fetched_at <= now,
    ensures
        now - fetched_at < 60 ==> r@ == "just now"@,
        60 <= now - fetched_at < 3600 ==> r@ == decimal(((now - fetched_at) / 60) as nat)
            + "m ago"@,
        3600 <= now - fetched_at < 86400 ==> r@ == decimal(((now - fetched_at) / 3600) as nat)
            + "h ago"@,
        86400 <= now - fetched_at ==> r@ == decimal(((now - fetched_at) / 86400) as nat)
            + "d ago"@,
{
}

/// What was typed is submitted if there is anything but white space, nothing
/// is being resolved, and somebody takes it.
pub proof fn law_input_submitted(state: &TargetInputState, manager: bool, r: InputAction)
    requires
        call_ensures(TargetInputState::submit, (state, manager), r),
    ensures
        (r is Submit) <==> crate::fields::trimmed(state.input@).len() > 0 && !state.resolving
            && manager,
        r matches InputAction::Submit(host) ==> host@ == crate::fields::trimmed(state.input@),
{
}

/// Typing, erasing and moving in a line change it where the cursor is: the
/// text in front of it and behind it stay as they are.
pub proof fn law_editing_at_the_cursor(
    text: &mut String,
    cursor: &mut usize,
    c: char,
    front: Seq<char>,
    back: Seq<char>,
)
    requires
        call_ensures(type_char, (text, cursor, c), ()),
        old(text)@ == front + back,
        *old(cursor) == crate::text::text_bytes(front),
    ensures
        final(text)@ == front + seq![c] + back,
        *final(cursor) == crate::text::text_bytes(front + seq![c]),
{
    let whole = front + back;
    assert(whole.take(front.len() as int) =~= front);
    crate::tui::edit::lemma_boundary(whole, front.len() as int, *old(cursor) as nat);
    assert(whole.insert(front.len() as int, c) =~= front + seq![c] + back);
    let longer = front + seq![c];
    assert(longer.drop_last() =~= front);
    assert(crate::text::text_bytes(longer) == crate::text::text_bytes(front)
        + crate::text::char_bytes(c));
}

/// Erasing takes the character in front of the cursor away, deleting the one
/// behind it; at the end of the line there is none.
pub proof fn law_erasing_at_the_cursor(
    erased: &mut String,
    deleted: &mut String,
    a: &mut usize,
    b: &mut usize,
    front: Seq<char>,
    back: Seq<char>,
)
    requires
        call_ensures(erase_char, (erased, a), ()),
        call_ensures(delete_char, (deleted, b), ()),
        old(erased)@ == front + back,
        old(deleted)@ == front + back,
        *old(a) == crate::text::text_bytes(front),
        *old(b) == crate::text::text_bytes(front),
    ensures
        front.len() > 0 ==> final(erased)@ == front.drop_last() + back,
        front.len() == 0 ==> final(erased)@ == back,
        back.len() > 0 ==> final(deleted)@ == front + back.skip(1),
        back.len() == 0 ==> final(deleted)@ == front,
{
    let whole = front + back;
    assert(whole.take(front.len() as int) =~= front);
    crate::tui::edit::lemma_boundary(whole, front.len() as int, *old(a) as nat);
    if front.len() > 0 {
        assert(whole.remove(front.len() - 1) =~= front.drop_last() + back);
    } else {
        assert(whole =~= back);
    }
    if back.len() > 0 {
        assert(whole.remove(front.len() as int) =~= front + back.skip(1));
    } else {
        assert(whole =~= front);
    }
}

/// A line is shown in two parts, around the cursor.
pub proof fn law_line_split_at_cursor(
    text: &String,
    cursor: usize,
    front: Seq<char>,
    back: Seq<char>,
    r: (String, String),
)
    requires
        call_ensures(split, (text, cursor), r),
        text@ == front + back,
        cursor == crate::text::text_bytes(front),
    ensures
        r.0@ == front,
        r.1@ == back,
{
    assert(text@.take(front.len() as int) =~= front);
    assert(text@.skip(front.len() as int) =~= back);
    crate::tui::edit::lemma_boundary(text@, front.len() as int, cursor as nat);
}

/// A command to a replay does what it says: pausing toggles, moving pauses at
/// the new place, the ends are the ends, and speed is left to who keeps the
/// clock.
pub proof fn law_replay_commands(
    ui: &mut UiState,
    command: ReplayCommand,
    running_ms: u64,
    now: u64,
    r: ReplayEffect,
    before: ReplayState,
)
    requires
        call_ensures(UiState::run_replay, (ui, command, running_ms, now), r),
        old(ui).replay_state == Some(before),
        before.wf(),
    ensures
        final(ui).replay_state matches Some(after) && {
            &&& after.events@ == before.events@
            &&& (command is TogglePause) ==> after.paused != before.paused && after.current_index
                == before.current_index
            &&& (command is Start) ==> after.paused && after.current_index == 0
                && after.paused_at_elapsed_ms == 0
            &&& (command is End) ==> after.paused && after.finished && after.current_index
                == before.events@.len()
            &&& command matches ReplayCommand::Seek(by) ==> after.paused && (by > 0 && !before.paused
                && !before.finished && running_ms + by <= duration(before.events@)
                ==> after.paused_at_elapsed_ms == running_ms + by) && (by < 0 && !before.paused
                && !before.finished && 0 <= running_ms + by <= duration(before.events@)
                ==> after.paused_at_elapsed_ms == running_ms + by)
            &&& (command is Faster) ==> after == before && (r matches ReplayEffect::Speed {
                faster,
                ..
            } && faster)
            &&& (command is Slower) ==> after == before && (r matches ReplayEffect::Speed {
                faster,
                ..
            } && !faster)
        },
{
}

/// Where a replay stands: at the clock while it runs, where it was paused, or
/// at its end.
pub proof fn law_position_of_replay(replay: &ReplayState, running_ms: u64, r: u64)
    requires
        call_ensures(ReplayState::current_ms, (replay, running_ms), r),
    ensures
        replay.paused ==> r == replay.paused_at_elapsed_ms,
        !replay.paused && !replay.finished ==> r == running_ms,
        !replay.paused && replay.finished ==> r == duration(replay.events@),
{
}

/// The events up to a point in time.
pub proof fn law_index_for_time(events: &Vec<ProbeEvent>, ms: u64, r: usize, i: int)
    requires
        call_ensures(replay_event_index_for_time, (events, ms), r),
        in_time(events@),
        0 <= i < events@.len(),
        ms > 0,
    ensures
        i < r <==> events@[i].offset_ms <= ms,
{
    law_happened(events@, ms);
}

/// What is preferred at the end is what is shown at the end.
pub proof fn law_preferences_at_the_end(
    ui: &UiState,
    names: &Vec<String>,
    check: Option<bool>,
    r: crate::prefs::Prefs,
)
    requires
        call_ensures(UiState::final_prefs, (ui, names, check), r),
        ui.theme_index < names@.len(),
    ensures
        r.theme matches Some(t) && t@ == names@[ui.theme_index as int]@,
        r.display_mode == Some(ui.display_mode),
        r.peeringdb_api_key is None <==> ui.settings.api_key@.len() == 0,
        r.no_update_check == check,
{
}

/// Keys in the settings: up and down choose the theme in the first section,
/// a choice in the second takes the next mode.
pub proof fn law_settings_keys(
    up: &mut SettingsState,
    down: &mut SettingsState,
    chosen: &mut SettingsState,
    tabbed: &mut SettingsState,
    count: usize,
    ix: bool,
)
    requires
        call_ensures(SettingsState::move_up, (up, count), ()),
        call_ensures(SettingsState::move_down, (down, count), ()),
        call_ensures(SettingsState::select, (chosen,), ()),
        call_ensures(SettingsState::next_section, (tabbed, ix), ()),
    ensures
        old(up).selected_section == 0 && old(up).theme_index > 0 ==> final(up).theme_index == old(
            up).theme_index - 1,
        old(up).selected_section != 0 ==> final(up).theme_index == old(up).theme_index,
        old(down).selected_section == 0 && old(down).theme_index + 1 < count ==> final(
            down).theme_index == old(down).theme_index + 1,
        old(down).theme_index + 1 >= count ==> final(down).theme_index == old(down).theme_index,
        old(chosen).selected_section != 1 ==> final(chosen).display_mode == old(
            chosen).display_mode,
        old(chosen).selected_section == 1 && (old(chosen).display_mode is Auto) ==> (final(
            chosen).display_mode is Compact),
        ix && old(tabbed).selected_section == 2 ==> final(tabbed).selected_section == 0,
        !ix && old(tabbed).selected_section == 1 ==> final(tabbed).selected_section == 0,
        old(tabbed).selected_section == 0 ==> final(tabbed).selected_section == 1,
{
}

/// Once sent, a target is being resolved; refused, it can be mended.
pub proof fn law_input_waits_for_reply(
    sent: &mut TargetInputState,
    unsent: &mut TargetInputState,
    refused: &mut TargetInputState,
    message: &str,
)
    requires
        call_ensures(TargetInputState::submitted, (sent, true), ()),
        call_ensures(TargetInputState::submitted, (unsent, false), ()),
        call_ensures(TargetInputState::refused, (refused, message), ()),
    ensures
        final(sent).pending && final(sent).resolving && final(sent).error is None,
        final(unsent).pending == old(unsent).pending && final(unsent).error is Some,
        !final(refused).pending && !final(refused).resolving && opt_text(final(refused).error)
            == Some(message@),
        final(refused).input@ == old(refused).input@,
{
}

/// The list of targets is loaded when it is opened and then every thirty
/// ticks.
pub proof fn law_list_refreshed(ui: &mut UiState, r: bool)
    requires
        call_ensures(UiState::list_tick, (ui,), r),
        old(ui).target_list_tick < u32::MAX,
    ensures
        !old(ui)@.show_target_list ==> !r && final(ui)@.list_tick == 0,
        old(ui)@.show_target_list ==> final(ui)@.list_tick == old(ui)@.list_tick + 1,
        old(ui)@.show_target_list && !old(ui)@.list_cached ==> r,
        old(ui)@.show_target_list && old(ui)@.list_cached ==> (r <==> final(ui)@.list_tick % 30
            == 0),
{
}

/// The cursor goes left and right by one character, and stays at the ends.
pub proof fn law_cursor_by_characters(
    text: &String,
    left: &mut usize,
    right: &mut usize,
    front: Seq<char>,
    back: Seq<char>,
)
    requires
        call_ensures(crate::tui::edit::cursor_left, (text, left), ()),
        call_ensures(crate::tui::edit::cursor_right, (text, right), ()),
        text@ == front + back,
        *old(left) == crate::text::text_bytes(front),
        *old(right) == crate::text::text_bytes(front),
    ensures
        front.len() == 0 ==> crate::tui::edit::chars_before(text@, *final(left) as nat) == 0,
        front.len() > 0 ==> crate::tui::edit::chars_before(text@, *final(left) as nat)
            == front.len() - 1,
        back.len() == 0 ==> crate::tui::edit::chars_before(text@, *final(right) as nat)
            == front.len(),
        back.len() > 0 ==> crate::tui::edit::chars_before(text@, *final(right) as nat)
            == front.len() + 1,
{
    assert(text@.take(front.len() as int) =~= front);
    crate::tui::edit::lemma_boundary(text@, front.len() as int, *old(left) as nat);
}

/// In the line for a target what can be printed is typed where the cursor is,
/// and erasing takes it away again.
pub proof fn law_target_typed_and_erased(
    typed: &mut TargetInputState,
    erased: &mut TargetInputState,
    c: char,
)
    requires
        call_ensures(TargetInputState::handle_char, (typed, c), ()),
        call_ensures(TargetInputState::handle_backspace, (erased,), ()),
        old(typed).cursor <= old(typed).input@.len(),
        old(erased).input@ == final(typed).input@,
        old(erased).cursor == final(typed).cursor,
        ' ' <= c <= '~',
    ensures
        final(typed).cursor == old(typed).cursor + 1,
        final(typed).input@.len() == old(typed).input@.len() + 1,
        final(typed).input@[old(typed).cursor as int] == c,
        final(erased).input@ == old(typed).input@,
        final(erased).cursor == old(typed).cursor,
{
    crate::tui::edit::law_erase_undoes_typing(old(typed).editing(), c);
}

/// A key is typed where the cursor is, and erasing takes it away again; the
/// other settings stay.
pub proof fn law_key_typed_and_erased(
    typed: &mut SettingsState,
    erased: &mut SettingsState,
    c: char,
)
    requires
        call_ensures(SettingsState::handle_char, (typed, c), ()),
        call_ensures(SettingsState::handle_backspace, (erased,), ()),
        old(typed).wf(),
        *old(erased) == *final(typed),
    ensures
        final(erased).api_key@ == old(typed).api_key@,
        final(typed).api_key@.len() == old(typed).api_key@.len() + 1,
        final(erased).theme_index == old(typed).theme_index,
        final(erased).display_mode == old(typed).display_mode,
        final(erased).selected_section == old(typed).selected_section,
{
    crate::tui::edit::lemma_cursor_of_edit(old(typed).api_key@, old(typed).api_key_cursor as nat);
    crate::tui::edit::law_erase_undoes_typing(old(typed).key_edit(), c);
}

/// While a replay runs what is due is applied, never less than before, and it
/// ends with its last event; a replay that does not run stays.
pub proof fn law_replay_runs(
    ui: &mut UiState,
    running_ms: u64,
    now: u64,
    r: SessionChange,
    before: ReplayState,
    i: int,
)
    requires
        call_ensures(UiState::replay_tick, (ui, running_ms, true, now), r),
        old(ui).replay_state == Some(before),
        before.wf(),
        in_time(before.events@),
        0 <= i < before.events@.len(),
    ensures
        before.paused || before.finished ==> (r is Keep) && final(ui)@ == old(ui)@,
        !before.paused && !before.finished ==> (final(ui).replay_state matches Some(after) && {
            &&& after.current_index >= before.current_index
            &&& before.events@[i].offset_ms <= running_ms ==> i < after.current_index
            &&& before.events@[i].offset_ms > running_ms && i >= before.current_index ==> i
                >= after.current_index
            &&& after.finished <==> after.current_index >= before.events@.len()
            &&& !after.paused
        }),
{
    law_happened(before.events@, running_ms);
}

/// What is said stays until something else is; an update is told in front of
/// everything else.
pub proof fn law_status_is_shown(
    ui: &mut UiState,
    text: &str,
    now: u64,
    shown: &UiState,
    current: &str,
    targets: usize,
    r: String,
)
    requires
        call_ensures(UiState::set_status, (ui, text, now), ()),
        call_ensures(crate::tui::screen::status_text, (shown, current, targets), r),
        shown@ == final(ui)@,
    ensures
        shown@.update_available is None ==> r@ == text@,
        shown@.update_available matches Some(version) ==> r@ == "UPDATE: v"@ + current@ + " -> "@
            + version + " available | Press 'u' to dismiss | ? for update command"@,
        shown@.update_available == old(ui)@.update_available,
        shown@.selected_target == old(ui)@.selected_target,
{
}

/// An update is taken over once, from the reply that is waited for.
pub proof fn law_update_taken_once(ui: &mut UiState, reply: crate::tui::ui::UpdateReply)
    requires
        call_ensures(UiState::take_update, (ui, reply), ()),
    ensures
        !old(ui)@.awaiting_update ==> final(ui)@ == old(ui)@,
        (reply is Waiting) ==> final(ui)@ == old(ui)@,
        old(ui)@.update_available is None && old(ui)@.awaiting_update && !(reply is Waiting)
            ==> !final(ui)@.awaiting_update,
        old(ui)@.update_available is Some ==> final(ui)@.update_available == old(
            ui)@.update_available,
        old(ui)@.update_available is None && old(ui)@.awaiting_update ==> (
        reply matches crate::tui::ui::UpdateReply::Done(version) ==> final(ui)@.update_available
            == opt_text(version)),
{
}

/// In the section of the key every character is typed into it, but for the
/// one that asks for new data.
pub proof fn law_keys_of_the_key(u: UiModel, c: char, control: bool, ctx: Context)
    requires
        !u.show_help,
        !u.show_target_input,
        u.show_settings,
        u.settings.section == 2,
        ctx.ix_enabled,
        0 <= u.settings.key.at <= u.settings.key.text.len(),
    ensures
        ({
            let after = key_step(u, Key::Char(c), control, ctx);
            let at = u.settings.key.at;
            &&& c == 'r' && control ==> (after.1 is RefreshCache) && after.0.settings.key
                == u.settings.key
            &&& c != 'r' || !control ==> (after.1 is Keep) && after.0.settings.key.text.len()
                == u.settings.key.text.len() + 1 && after.0.settings.key.text[at] == c
                && after.0.settings.key.at == at + 1
        }),
{
}

/// A line for a target that is given up is forgotten.
pub proof fn law_given_up_target_forgotten(u: UiModel, control: bool, ctx: Context)
    requires
        !u.show_help,
        u.show_target_input,
    ensures
        ({
            let after = key_step(u, Key::Esc, control, ctx).0;
            &&& !after.show_target_input
            &&& after.input.line.text.len() == 0 && after.input.line.at == 0
            &&& after.input.error is None && !after.input.resolving && !after.input.pending
            &&& after.selected_target == u.selected_target
        }),
{
}

/// A replay goes on where it was paused; moving in it hands out what has to be
/// applied, or up to where to start again if it moved back.
pub proof fn law_replay_effects(
    ui: &mut UiState,
    command: ReplayCommand,
    running_ms: u64,
    now: u64,
    r: ReplayEffect,
    before: ReplayState,
)
    requires
        call_ensures(UiState::run_replay, (ui, command, running_ms, now), r),
        old(ui).replay_state == Some(before),
        before.wf(),
        before.events@.len() <= usize::MAX,
    ensures
        (command is TogglePause) && before.paused ==> r == ReplayEffect::Clock(
            before.paused_at_elapsed_ms,
        ),
        (command is TogglePause) && !before.paused ==> (r is Nothing),
        (command is Start) && before.current_index > 0 ==> r == ReplayEffect::Session(
            SessionChange::Rebuild(0),
        ),
        (command is End) && before.current_index < before.events@.len() ==> r
            == ReplayEffect::Session(
            SessionChange::Apply(before.current_index, before.events@.len() as usize),
        ),
        (command is End) && before.current_index == before.events@.len() ==> r
            == ReplayEffect::Session(SessionChange::Keep),
{
}

/// Where a replay stands is told by its events, and at its ends by their
/// names.
pub proof fn law_position_told(ms: u64, total_ms: u64, index: usize, total: usize, r: String)
    requires
        call_ensures(
            crate::tui::replay::format_replay_position,
            (ms, total_ms, index, total),
            r,
        ),
        total > 0,
    ensures
        index == 0 ==> r@ == "start (event 0/"@ + decimal(total as nat) + ")"@,
        0 < index < total ==> r@ == crate::tui::replay::time_text(ms) + " (event "@ + decimal(
            index as nat,
        ) + "/"@ + decimal(total as nat) + ")"@,
        index == total && total_ms > 0 ==> r@ == "end "@ + crate::tui::replay::time_text(total_ms)
            + " (event "@ + decimal(index as nat) + "/"@ + decimal(total as nat) + ")"@,
{
}

/// Targets are listed below each other, numbered from 1, with a mark in front
/// of the selected one.
pub proof fn law_listed_targets_numbered(
    view: &crate::tui::targets::TargetListView,
    r: Vec<crate::tui::line::Line>,
    i: int,
)
    requires
        call_ensures(crate::tui::targets::TargetListView::lines, (view,), r),
        0 <= i < view.target_infos@.len(),
    ensures
        r@.len() == view.target_infos@.len() + 6,
        ({
            let line = crate::tui::line::line_views(r@)[3 + i];
            let info = view.target_infos@[i]@;
            let mark = if i == view.selected_index {
                "  "@ + ">"@
            } else {
                "  "@ + " "@
            };
            line == crate::tui::line::plain_line(
                mark + " "@ + crate::text::right_aligned(decimal((i + 1) as nat), 2) + ". "@
                    + crate::text::left_aligned(info.ip, 17) + " "@ + crate::text::left_aligned(
                    crate::tui::targets::fitted(info.hostname),
                    18,
                ) + " "@ + crate::text::left_aligned(info.hops_str, 8) + " "@
                    + crate::text::right_aligned(info.loss_str, 5),
                if i == view.selected_index {
                    crate::tui::line::Role::ActiveShortcut
                } else {
                    crate::tui::line::Role::Text
                },
            )
        }),
{
    let infos = view.target_infos@;
    let top = Seq::<Seq<crate::tui::line::SpanView>>::empty().push(
        crate::tui::line::no_text(),
    ).push(
        crate::tui::line::plain_line(
            "  Resolved "@ + decimal(infos.len()) + " addresses:"@,
            crate::tui::line::Role::Header,
        ),
    ).push(crate::tui::line::no_text());
    lemma_listed(top, infos, view.selected_index, infos.len(), i);
    assert(crate::tui::line::line_views(r@).len() == r@.len());
}

/// The lines of the targets stand in the order of the targets.
proof fn lemma_listed(
    top: Seq<Seq<crate::tui::line::SpanView>>,
    infos: Seq<TargetInfo>,
    selected: usize,
    n: nat,
    i: int,
)
    requires
        n <= infos.len(),
    ensures
        crate::tui::targets::with_targets(top, infos, selected, n).len() == top.len() + n,
        0 <= i < n ==> crate::tui::targets::with_targets(top, infos, selected, n)[top.len() + i]
            == crate::tui::targets::target_line(i as nat, i == selected, infos[i]@),
    decreases n,
{
    if n > 0 {
        lemma_listed(top, infos, selected, (n - 1) as nat, i);
    }
}

/// The line for a target stands in the middle of the screen, unless there is
/// no room for it.
pub proof fn law_input_in_the_middle(
    view: &crate::tui::target_input::TargetInputView,
    screen: Rect,
    r: Option<Rect>,
)
    requires
        call_ensures(crate::tui::target_input::TargetInputView::area, (view, screen), r),
        screen.x + screen.width <= 65535,
        screen.y + screen.height <= 65535,
    ensures
        r is Some <==> screen.width >= 24 && screen.height >= 7,
        r matches Some(a) ==> {
            &&& a.height == 7
            &&& screen.width >= 54 ==> a.width == 50
            &&& screen.width < 54 ==> a.width == screen.width - 4
            &&& screen.width - 1 <= 2 * (a.x - screen.x) + a.width <= screen.width
            &&& screen.height - 1 <= 2 * (a.y - screen.y) + a.height <= screen.height
        },
{
}

/// The chosen theme has a filled mark, the others an open one, and it stands
/// out in its section only.
pub proof fn law_chosen_theme_marked(
    state: SettingsState,
    names: Seq<Seq<char>>,
    i: int,
)
    ensures
        crate::tui::settings::theme_line(state, names, i) == crate::tui::line::plain_line(
            "    "@ + (if i == state.theme_index {
                "\u{25cf}"@
            } else {
                "\u{25cb}"@
            }) + " "@ + names[i],
            if i != state.theme_index {
                crate::tui::line::Role::Dim
            } else if state.selected_section == 0 {
                crate::tui::line::Role::ActiveShortcut
            } else {
                crate::tui::line::Role::Text
            },
        ),
{
}

/// What is pressed together with control, or cannot be printed, is not typed
/// into the line for a target.
pub proof fn law_only_printable_typed(u: UiModel, c: char, control: bool, ctx: Context)
    requires
        !u.show_help,
        u.show_target_input,
        control || c < ' ' || c == '\u{7f}',
    ensures
        key_step(u, Key::Char(c), control, ctx).0.input.line == u.input.line,
        key_step(u, Key::Char(c), control, ctx).1 is Keep,
{
}

} // verus!
