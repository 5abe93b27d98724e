//! What keys do.

use crate::prefs::typed_key;
use crate::session::Address;
use crate::text::{copy_of, decimal, opt_text, push_decimal, push_text};
use crate::tui::edit::Edit;
use crate::tui::key::Key;
use crate::tui::settings::SettingsState;
use crate::tui::target_input::{is_printable, InputAction, TargetInputState};
use crate::tui::ui::{fresh_input, InputModel, SettingsModel, UiModel, UiState};
use vstd::prelude::*;

verus! {

/// What keys are handled with.
pub struct Context<'a> {
    pub targets: &'a Vec<Address>,
    /// Whether each target is paused.
    pub paused: &'a Vec<bool>,
    pub theme_names: &'a Vec<String>,
    /// Whether IX detection is on.
    pub ix_enabled: bool,
    /// Whether targets can be added.
    pub can_add: bool,
    /// How many hops of the target on show have been probed.
    pub hop_count: usize,
    /// The time in nanoseconds.
    pub now: u64,
}

/// What a replay is asked for.
#[derive(Clone, Copy, Debug, PartialEq, Eq, Structural)]
pub enum ReplayCommand {
    TogglePause,
    /// To move by milliseconds.
    Seek(i64),
    /// To go to the start.
    Start,
    /// To go to the end.
    End,
    Faster,
    Slower,
}

/// What a key asks the program to do.
#[derive(Clone, Debug)]
pub enum Action {
    /// Nothing more.
    Keep,
    Quit,
    /// To use another API key, or none.
    SetApiKey(Option<String>),
    /// To fetch the IX data again.
    RefreshCache,
    /// To add a target.
    Submit(String),
    /// To pause or resume probing of the target on show.
    SetPaused(bool),
    /// To reset the statistics of the target on show.
    ResetStats,
    /// To save the target on show to a file.
    Export,
    /// To make the list of targets.
    LoadTargetList,
    Replay(ReplayCommand),
}

/// What a key asks for, by its values.
pub enum ActionView {
    Keep,
    Quit,
    SetApiKey(Option<Seq<char>>),
    RefreshCache,
    Submit(Seq<char>),
    SetPaused(bool),
    ResetStats,
    Export,
    LoadTargetList,
    Replay(ReplayCommand),
}

impl View for Action {
    type V = ActionView;

    open spec fn view(&self) -> ActionView {
        match *self {
            Action::Keep => ActionView::Keep,
            Action::Quit => ActionView::Quit,
            Action::SetApiKey(key) => ActionView::SetApiKey(opt_text(key)),
            Action::RefreshCache => ActionView::RefreshCache,
            Action::Submit(host) => ActionView::Submit(host@),
            Action::SetPaused(p) => ActionView::SetPaused(p),
            Action::ResetStats => ActionView::ResetStats,
            Action::Export => ActionView::Export,
            Action::LoadTargetList => ActionView::LoadTargetList,
            Action::Replay(c) => ActionView::Replay(c),
        }
    }
}

/// An API key as typed: none if empty.
pub open spec fn key_of(e: Edit) -> Option<Seq<char>> {
    if e.text.len() == 0 {
        None
    } else {
        Some(e.text)
    }
}

/// Settings closed and put to use.
pub open spec fn settings_closed(u: UiModel, ix_enabled: bool) -> (UiModel, ActionView) {
    (
        UiModel {
            theme_index: u.settings.theme,
            display_mode: u.settings.mode,
            show_settings: false,
            ..u
        },
        if ix_enabled {
            ActionView::SetApiKey(key_of(u.settings.key))
        } else {
            ActionView::Keep
        },
    )
}

/// The state with another API key line.
pub open spec fn with_key(u: UiModel, key: Edit) -> UiModel {
    UiModel { settings: SettingsModel { key, ..u.settings }, ..u }
}

/// The state after the next section was chosen.
pub open spec fn next_section(u: UiModel, ix_enabled: bool) -> UiModel {
    UiModel {
        settings: SettingsModel {
            section: ((u.settings.section + 1) % (if ix_enabled {
                3int
            } else {
                2
            })) as usize,
            ..u.settings
        },
        ..u
    }
}

/// What a key does while the API key is edited.
pub open spec fn api_key_step(u: UiModel, key: Key, control: bool, now: u64) -> (
    UiModel,
    ActionView,
) {
    let line = u.settings.key;
    match key {
        Key::Esc => settings_closed(u, true),
        Key::Tab => (next_section(u, true), ActionView::Keep),
        Key::Backspace => (with_key(u, line.erased()), ActionView::Keep),
        Key::Delete => (with_key(u, line.deleted()), ActionView::Keep),
        Key::Left => (with_key(u, line.left()), ActionView::Keep),
        Key::Right => (with_key(u, line.right()), ActionView::Keep),
        Key::Char(c) => if c == 'r' && control {
            (u.says("Refreshing PeeringDB cache..."@, now), ActionView::RefreshCache)
        } else {
            (with_key(u, line.typed(c)), ActionView::Keep)
        },
        _ => (u, ActionView::Keep),
    }
}

/// The state after the selection moved up among the themes; the theme is
/// shown at once.
pub open spec fn theme_up(u: UiModel) -> UiModel {
    let s = u.settings;
    let theme = if s.section == 0 && s.theme > 0 {
        (s.theme - 1) as usize
    } else {
        s.theme
    };
    UiModel {
        theme_index: theme,
        settings: SettingsModel {
            theme,
            scroll: if theme < s.theme && theme < s.scroll {
                theme
            } else {
                s.scroll
            },
            ..s
        },
        ..u
    }
}

/// The state after the selection moved down among the themes; the theme is
/// shown at once.
pub open spec fn theme_down(u: UiModel, themes: nat) -> UiModel {
    let s = u.settings;
    let theme = if s.section == 0 && s.theme + 1 < themes {
        (s.theme + 1) as usize
    } else {
        s.theme
    };
    UiModel {
        theme_index: theme,
        settings: SettingsModel {
            theme,
            scroll: if theme > s.theme && theme >= s.scroll + 5 {
                (theme - 4) as usize
            } else {
                s.scroll
            },
            ..s
        },
        ..u
    }
}

/// The state after the display mode was cycled in its section; the mode is
/// shown at once.
pub open spec fn mode_chosen(u: UiModel) -> UiModel {
    let mode = if u.settings.section == 1 {
        u.settings.mode.successor()
    } else {
        u.settings.mode
    };
    UiModel { display_mode: mode, settings: SettingsModel { mode, ..u.settings }, ..u }
}

/// What a key does while the settings are open.
pub open spec fn settings_step(
    u: UiModel,
    key: Key,
    control: bool,
    themes: nat,
    ix_enabled: bool,
    now: u64,
) -> (UiModel, ActionView) {
    if u.settings.section == 2 && ix_enabled {
        api_key_step(u, key, control, now)
    } else {
        match key {
            Key::Esc => settings_closed(u, ix_enabled),
            Key::Up => (theme_up(u), ActionView::Keep),
            Key::Down => (theme_down(u, themes), ActionView::Keep),
            Key::Tab => (next_section(u, ix_enabled), ActionView::Keep),
            Key::Enter => (mode_chosen(u), ActionView::Keep),
            Key::Char(c) => if c == 'k' {
                (theme_up(u), ActionView::Keep)
            } else if c == 'j' {
                (theme_down(u, themes), ActionView::Keep)
            } else if c == ' ' {
                (mode_chosen(u), ActionView::Keep)
            } else {
                (u, ActionView::Keep)
            },
            _ => (u, ActionView::Keep),
        }
    }
}

/// What submitting a target asks for: nothing while it is blank or another is
/// being resolved, or where none can be added.
pub open spec fn submission(u: UiModel, can_add: bool) -> ActionView {
    let host = crate::fields::trimmed(u.input.line.text);
    if host.len() == 0 || u.input.resolving || !can_add {
        ActionView::Keep
    } else {
        ActionView::Submit(host)
    }
}

/// What a key does while a target is typed.
pub open spec fn input_step(u: UiModel, key: Key, control: bool, can_add: bool) -> (
    UiModel,
    ActionView,
) {
    let line = u.input.line;
    match key {
        Key::Esc => (
            UiModel { input: fresh_input(), show_target_input: false, ..u },
            ActionView::Keep,
        ),
        Key::Enter => (u, submission(u, can_add)),
        _ => (
            UiModel {
                input: InputModel {
                    line: match key {
                        Key::Backspace => line.erased(),
                        Key::Delete => line.deleted(),
                        Key::Left => line.left(),
                        Key::Right => line.right(),
                        Key::Char(c) => if !control && is_printable(c) {
                            line.typed(c)
                        } else {
                            line
                        },
                        _ => line,
                    },
                    ..u.input
                },
                ..u
            },
            ActionView::Keep,
        ),
    }
}

/// The last place among `count` places, zero if there is none.
pub open spec fn last_place(count: nat) -> nat {
    if count > 0 {
        (count - 1) as nat
    } else {
        0
    }
}

/// The smaller of two numbers.
pub open spec fn least(a: nat, b: nat) -> nat {
    if a <= b {
        a
    } else {
        b
    }
}

/// What a key does while a hop is shown in detail.
pub open spec fn detail_step(u: UiModel, key: Key, hops: nat) -> UiModel {
    let up = match u.selected {
        Some(i) => UiModel {
            selected: Some(
                if i > 0 {
                    (i - 1) as usize
                } else {
                    0
                },
            ),
            ..u
        },
        None => u,
    };
    let down = match u.selected {
        Some(i) => UiModel { selected: Some(least((i + 1) as nat, last_place(hops)) as usize), ..u },
        None => u,
    };
    let closed = UiModel { show_hop_detail: false, ..u };
    match key {
        Key::Up => up,
        Key::Down => down,
        Key::Esc => closed,
        Key::Enter => closed,
        Key::Char(c) => if c == 'k' {
            up
        } else if c == 'j' {
            down
        } else if '1' <= c <= '9' {
            UiModel {
                selected: Some(least((c as u32 - 0x31) as nat, last_place(hops)) as usize),
                ..u
            }
        } else if c == 'q' {
            closed
        } else {
            u
        },
        _ => u,
    }
}

/// The state with another target on show.
pub open spec fn shows_target(u: UiModel, place: nat, paused: Seq<bool>) -> UiModel {
    UiModel {
        selected_target: place as usize,
        selected: None,
        paused: paused[place as int],
        ..u
    }
}

/// What a key does while the list of targets is open.
pub open spec fn list_step(u: UiModel, key: Key, targets: nat, paused: Seq<bool>) -> UiModel {
    let i = u.target_list_index;
    let up = UiModel { target_list_index: previous(i, targets) as usize, ..u };
    let down = UiModel { target_list_index: following(i, targets) as usize, ..u };
    match key {
        Key::Esc => UiModel { show_target_list: false, ..u },
        Key::Enter => UiModel { show_target_list: false, ..shows_target(u, i as nat, paused) },
        Key::Up => up,
        Key::Down => down,
        Key::Char(c) => if c == 'k' {
            up
        } else if c == 'j' {
            down
        } else if '1' <= c <= '9' && c as u32 - 0x30 <= targets {
            UiModel {
                target_list_index: (c as u32 - 0x31) as usize,
                show_target_list: false,
                ..shows_target(u, (c as u32 - 0x31) as nat, paused)
            }
        } else {
            u
        },
        _ => u,
    }
}

/// The message after the target on show was switched.
pub open spec fn switched_text(place: nat, targets: Seq<Address>) -> Seq<char> {
    "Target "@ + decimal(place + 1) + "/"@ + decimal(targets.len()) + ": "@
        + targets[place as int].text@
}

/// The state after the target on show was switched.
pub open spec fn switched(
    u: UiModel,
    place: nat,
    targets: Seq<Address>,
    paused: Seq<bool>,
    now: u64,
) -> UiModel {
    shows_target(u, place, paused).says(switched_text(place, targets), now)
}

/// What the key for pausing does: in a replay it is about the replay, else
/// about probing.
pub open spec fn pause_step(u: UiModel, now: u64) -> (UiModel, ActionView) {
    if u.replay is Some {
        (u, ActionView::Replay(ReplayCommand::TogglePause))
    } else {
        (
            (UiModel { paused: !u.paused, ..u }).says(
                if !u.paused {
                    "Paused"@
                } else {
                    "Resumed"@
                },
                now,
            ),
            ActionView::SetPaused(!u.paused),
        )
    }
}

/// The settings as they open: the API key stays, with the cursor after it.
pub open spec fn settings_opened(u: UiModel) -> UiModel {
    UiModel {
        settings: SettingsModel {
            section: 0,
            scroll: 0,
            theme: u.theme_index,
            mode: u.display_mode,
            key: Edit { text: u.settings.key.text, at: u.settings.key.text.len() as int },
        },
        show_settings: true,
        ..u
    }
}

/// The state after the selection moved up among the hops; it goes round.
pub open spec fn hop_up(u: UiModel, hops: nat) -> UiModel {
    if hops == 0 {
        u
    } else {
        UiModel {
            selected: Some(
                match u.selected {
                    Some(i) => if i > 0 {
                        (i - 1) as usize
                    } else {
                        (hops - 1) as usize
                    },
                    None => (hops - 1) as usize,
                },
            ),
            ..u
        }
    }
}

/// The state after the selection moved down among the hops; it goes round.
pub open spec fn hop_down(u: UiModel, hops: nat) -> UiModel {
    if hops == 0 {
        u
    } else {
        UiModel {
            selected: Some(
                match u.selected {
                    Some(i) => if i < hops - 1 {
                        (i + 1) as usize
                    } else {
                        0
                    },
                    None => 0,
                },
            ),
            ..u
        }
    }
}

/// A command for the replay, if there is one.
pub open spec fn replay_step(u: UiModel, command: ReplayCommand) -> (UiModel, ActionView) {
    (
        u,
        if u.replay is Some {
            ActionView::Replay(command)
        } else {
            ActionView::Keep
        },
    )
}

/// What a character does to the selection or the replay.
pub open spec fn move_char_step(u: UiModel, c: char, hops: nat) -> (UiModel, ActionView) {
    if c == 'k' {
        (hop_up(u, hops), ActionView::Keep)
    } else if c == 'j' {
        (hop_down(u, hops), ActionView::Keep)
    } else if c == '[' {
        replay_step(u, ReplayCommand::Seek((-5000) as i64))
    } else if c == ']' {
        replay_step(u, ReplayCommand::Seek(5000))
    } else if c == '+' || c == '>' {
        replay_step(u, ReplayCommand::Faster)
    } else if c == '-' || c == '<' {
        replay_step(u, ReplayCommand::Slower)
    } else {
        (u, ActionView::Keep)
    }
}

/// What a character does that opens or closes something, or else moves
/// something.
pub open spec fn open_char_step(u: UiModel, c: char, targets: nat, can_add: bool, hops: nat) -> (
    UiModel,
    ActionView,
) {
    if c == '?' || c == 'h' {
        (UiModel { show_help: true, ..u }, ActionView::Keep)
    } else if c == 's' {
        (settings_opened(u), ActionView::Keep)
    } else if c == 'o' && u.replay is None && can_add {
        (UiModel { input: fresh_input(), show_target_input: true, ..u }, ActionView::Keep)
    } else if c == 'l' && targets > 1 {
        (
            UiModel {
                target_list_index: u.selected_target,
                show_target_list: true,
                list_cached: true,
                list_tick: 0,
                ..u
            },
            ActionView::LoadTargetList,
        )
    } else if c == 'u' && u.update_available is Some {
        (UiModel { update_available: None, ..u }, ActionView::Keep)
    } else if c == 'e' {
        (u, ActionView::Export)
    } else {
        move_char_step(u, c, hops)
    }
}

/// What a character does while no popup is open.
pub open spec fn char_step(
    u: UiModel,
    c: char,
    control: bool,
    targets: Seq<Address>,
    paused: Seq<bool>,
    themes: Seq<String>,
    can_add: bool,
    hops: nat,
    now: u64,
) -> (UiModel, ActionView) {
    let n = targets.len();
    if c == 'q' || (c == 'c' && control) || c == '\x03' {
        (u, ActionView::Quit)
    } else if c == 'n' && n > 1 {
        (
            switched(u, following(u.selected_target, n), targets, paused, now),
            ActionView::Keep,
        )
    } else if c == 'N' && n > 1 {
        (switched(u, previous(u.selected_target, n), targets, paused, now), ActionView::Keep)
    } else if c == 'p' || c == ' ' {
        pause_step(u, now)
    } else if c == 'r' {
        (u.says("Stats reset"@, now), ActionView::ResetStats)
    } else if c == 't' {
        (theme_cycled(u, themes, now), ActionView::Keep)
    } else if c == 'w' {
        (mode_cycled(u, now), ActionView::Keep)
    } else {
        open_char_step(u, c, n, can_add, hops)
    }
}

/// The state with the next theme.
pub open spec fn theme_cycled(u: UiModel, themes: Seq<String>, now: u64) -> UiModel {
    let theme = following(u.theme_index, themes.len()) as usize;
    (UiModel { theme_index: theme, settings: SettingsModel { theme, ..u.settings }, ..u }).says(
        "Theme: "@ + themes[theme as int]@,
        now,
    )
}

/// The state with the next display mode.
pub open spec fn mode_cycled(u: UiModel, now: u64) -> UiModel {
    let mode = u.display_mode.successor();
    (UiModel { display_mode: mode, settings: SettingsModel { mode, ..u.settings }, ..u }).says(
        "Display: "@ + mode.name(),
        now,
    )
}

/// The place after a place, going round.
pub open spec fn following(place: usize, n: nat) -> nat {
    if place + 1 < n {
        (place + 1) as nat
    } else {
        0
    }
}

/// The place before a place, going round.
pub open spec fn previous(place: usize, n: nat) -> nat {
    if place == 0 {
        (n - 1) as nat
    } else {
        (place - 1) as nat
    }
}

/// What a key does while no popup is open.
pub open spec fn main_step(
    u: UiModel,
    key: Key,
    control: bool,
    targets: Seq<Address>,
    paused: Seq<bool>,
    themes: Seq<String>,
    can_add: bool,
    hops: nat,
    now: u64,
) -> (UiModel, ActionView) {
    let n = targets.len();
    match key {
        Key::Char(c) => char_step(u, c, control, targets, paused, themes, can_add, hops, now),
        Key::Tab => if n > 1 {
            (
                switched(u, following(u.selected_target, n), targets, paused, now),
                ActionView::Keep,
            )
        } else {
            (u, ActionView::Keep)
        },
        Key::BackTab => if n > 1 {
            (switched(u, previous(u.selected_target, n), targets, paused, now), ActionView::Keep)
        } else {
            (u, ActionView::Keep)
        },
        Key::Up => (hop_up(u, hops), ActionView::Keep),
        Key::Down => (hop_down(u, hops), ActionView::Keep),
        Key::Enter => (
            if u.selected is Some {
                UiModel { show_hop_detail: true, ..u }
            } else {
                u
            },
            ActionView::Keep,
        ),
        Key::Esc => (UiModel { selected: None, ..u }, ActionView::Keep),
        Key::Left => replay_step(u, ReplayCommand::Seek((-500) as i64)),
        Key::Right => replay_step(u, ReplayCommand::Seek(500)),
        Key::Home => replay_step(u, ReplayCommand::Start),
        Key::End => replay_step(u, ReplayCommand::End),
        _ => (u, ActionView::Keep),
    }
}

/// What a key does: the topmost popup takes it.
pub open spec fn key_step(u: UiModel, key: Key, control: bool, ctx: Context) -> (
    UiModel,
    ActionView,
) {
    if u.show_help {
        (UiModel { show_help: false, ..u }, ActionView::Keep)
    } else if u.show_target_input {
        input_step(u, key, control, ctx.can_add)
    } else if u.show_settings {
        settings_step(u, key, control, ctx.theme_names@.len(), ctx.ix_enabled, ctx.now)
    } else if u.show_hop_detail {
        (detail_step(u, key, ctx.hop_count as nat), ActionView::Keep)
    } else if u.show_target_list {
        (list_step(u, key, ctx.targets@.len(), ctx.paused@), ActionView::Keep)
    } else {
        main_step(
            u,
            key,
            control,
            ctx.targets@,
            ctx.paused@,
            ctx.theme_names@,
            ctx.can_add,
            ctx.hop_count as nat,
            ctx.now,
        )
    }
}

/// The place after a place, going round.
fn next_place(place: usize, n: usize) -> (r: usize)
    requires
        place < n,
    ensures
        r == following(place, n as nat),
        r < n,
{
    if place + 1 < n {
        place + 1
    } else {
        0
    }
}

/// The place before a place, going round.
fn last_before(place: usize, n: usize) -> (r: usize)
    requires
        place < n,
    ensures
        r == previous(place, n as nat),
        r < n,
{
    if place > 0 {
        place - 1
    } else {
        n - 1
    }
}

impl UiState {
    fn close_settings(&mut self, ix_enabled: bool) -> (r: Action)
        requires
            old(self).wf(),
        ensures
            final(self).wf(),
            (final(self)@, r@) == settings_closed(old(self)@, ix_enabled),
    {
        self.theme_index = self.settings.theme_index;
        self.display_mode = self.settings.display_mode;
        self.show_settings = false;
        if ix_enabled {
            Action::SetApiKey(typed_key(self.settings.api_key.as_str()))
        } else {
            Action::Keep
        }
    }

    fn handle_api_key(&mut self, key: Key, control: bool, now: u64) -> (r: Action)
        requires
            old(self).wf(),
            old(self).has_room(),
            old(self).settings.selected_section <= 2,
        ensures
            final(self).wf(),
            (final(self)@, r@) == api_key_step(old(self)@, key, control, now),
    {
        match key {
            Key::Esc => {
                return self.close_settings(true);
            },
            Key::Tab => self.settings.next_section(true),
            Key::Backspace => self.settings.handle_backspace(),
            Key::Delete => self.settings.handle_delete(),
            Key::Left => self.settings.move_cursor_left(),
            Key::Right => self.settings.move_cursor_right(),
            Key::Char(c) => {
                if c == 'r' && control {
                    self.set_status("Refreshing PeeringDB cache...", now);
                    return Action::RefreshCache;
                }
                self.settings.handle_char(c);
            },
            _ => {},
        }
        Action::Keep
    }

    fn move_theme_up(&mut self, themes: usize)
        requires
            old(self).wf(),
        ensures
            final(self).wf(),
            final(self)@ == theme_up(old(self)@),
    {
        self.settings.move_up(themes);
        self.theme_index = self.settings.theme_index;
    }

    fn move_theme_down(&mut self, themes: usize)
        requires
            old(self).wf(),
            old(self).settings.theme_scroll + 5 <= usize::MAX,
        ensures
            final(self).wf(),
            final(self)@ == theme_down(old(self)@, themes as nat),
    {
        self.settings.move_down(themes);
        self.theme_index = self.settings.theme_index;
    }

    fn choose_mode(&mut self)
        requires
            old(self).wf(),
        ensures
            final(self).wf(),
            final(self)@ == mode_chosen(old(self)@),
    {
        self.settings.select();
        self.display_mode = self.settings.display_mode;
    }

    fn handle_settings(
        &mut self,
        key: Key,
        control: bool,
        themes: usize,
        ix_enabled: bool,
        now: u64,
    ) -> (r: Action)
        requires
            old(self).wf(),
            old(self).has_room(),
            old(self).settings.selected_section <= 2,
            old(self).settings.theme_scroll + 5 <= usize::MAX,
        ensures
            final(self).wf(),
            (final(self)@, r@) == settings_step(
                old(self)@,
                key,
                control,
                themes as nat,
                ix_enabled,
                now,
            ),
    {
        if self.settings.selected_section == 2 && ix_enabled {
            return self.handle_api_key(key, control, now);
        }
        match key {
            Key::Esc => {
                return self.close_settings(ix_enabled);
            },
            Key::Up => self.move_theme_up(themes),
            Key::Down => self.move_theme_down(themes),
            Key::Tab => self.settings.next_section(ix_enabled),
            Key::Enter => self.choose_mode(),
            Key::Char(c) => {
                if c == 'k' {
                    self.move_theme_up(themes);
                } else if c == 'j' {
                    self.move_theme_down(themes);
                } else if c == ' ' {
                    self.choose_mode();
                }
            },
            _ => {},
        }
        Action::Keep
    }

    fn handle_input(&mut self, key: Key, control: bool, can_add: bool) -> (r: Action)
        requires
            old(self).wf(),
            old(self).has_room(),
        ensures
            final(self).wf(),
            (final(self)@, r@) == input_step(old(self)@, key, control, can_add),
    {
        match key {
            Key::Esc => {
                self.target_input = TargetInputState::default();
                assert(self.target_input@.line.text =~= Seq::empty());
                self.show_target_input = false;
                Action::Keep
            },
            Key::Enter => match self.target_input.submit(can_add) {
                InputAction::Submit(host) => Action::Submit(host),
                InputAction::Keep => Action::Keep,
            },
            _ => {
                self.target_input.handle_key(key, control);
                Action::Keep
            },
        }
    }

    fn handle_detail(&mut self, key: Key, hops: usize)
        requires
            old(self).wf(),
            old(self).selected matches Some(i) ==> i < usize::MAX,
        ensures
            final(self).wf(),
            final(self)@ == detail_step(old(self)@, key, hops as nat),
    {
        let last: usize = hops.saturating_sub(1);
        let (up, down, close) = match key {
            Key::Up => (true, false, false),
            Key::Down => (false, true, false),
            Key::Esc | Key::Enter => (false, false, true),
            Key::Char(c) => (c == 'k', c == 'j', c == 'q'),
            _ => (false, false, false),
        };
        if up {
            if let Some(i) = self.selected {
                self.selected = Some(i.saturating_sub(1));
            }
        } else if down {
            if let Some(i) = self.selected {
                self.selected = Some(
                    if i + 1 <= last {
                        i + 1
                    } else {
                        last
                    },
                );
            }
        } else if close {
            self.show_hop_detail = false;
        } else if let Key::Char(c) = key {
            if '1' <= c && c <= '9' {
                let place: usize = (c as u32 - 0x31) as usize;
                self.selected = Some(
                    if place <= last {
                        place
                    } else {
                        last
                    },
                );
            }
        }
    }

    fn show_target(&mut self, place: usize, paused: &Vec<bool>)
        requires
            old(self).wf(),
            place < paused@.len(),
        ensures
            final(self).wf(),
            final(self)@ == shows_target(old(self)@, place as nat, paused@),
            final(self).settings == old(self).settings,
            final(self).target_input == old(self).target_input,
    {
        self.selected_target = place;
        self.selected = None;
        self.paused = paused[place];
    }

    fn move_in_list(&mut self, place: usize)
        requires
            old(self).wf(),
        ensures
            final(self).wf(),
            final(self)@ == (UiModel { target_list_index: place, ..old(self)@ }),
    {
        self.target_list_index = place;
    }

    fn close_list(&mut self)
        requires
            old(self).wf(),
        ensures
            final(self).wf(),
            final(self)@ == (UiModel { show_target_list: false, ..old(self)@ }),
    {
        self.show_target_list = false;
    }

    fn handle_list_char(&mut self, c: char, targets: usize, paused: &Vec<bool>)
        requires
            old(self).wf(),
            old(self).target_list_index < targets,
            paused@.len() == targets,
        ensures
            final(self).wf(),
            final(self)@ == list_step(old(self)@, Key::Char(c), targets as nat, paused@),
    {
        let place: usize = self.target_list_index;
        if c == 'k' {
            self.move_in_list(last_before(place, targets));
        } else if c == 'j' {
            self.move_in_list(next_place(place, targets));
        } else if '1' <= c && c <= '9' {
            let number: usize = (c as u32 - 0x30) as usize;
            if number <= targets {
                self.show_target(number - 1, paused);
                self.move_in_list(number - 1);
                self.close_list();
            }
        }
    }

    fn handle_list(&mut self, key: Key, targets: usize, paused: &Vec<bool>)
        requires
            old(self).wf(),
            old(self).target_list_index < targets,
            paused@.len() == targets,
        ensures
            final(self).wf(),
            final(self)@ == list_step(old(self)@, key, targets as nat, paused@),
    {
        let place: usize = self.target_list_index;
        match key {
            Key::Up => self.move_in_list(last_before(place, targets)),
            Key::Down => self.move_in_list(next_place(place, targets)),
            Key::Esc => self.close_list(),
            Key::Enter => {
                self.show_target(place, paused);
                self.close_list();
            },
            Key::Char(c) => self.handle_list_char(c, targets, paused),
            _ => {},
        }
    }

    fn switch_target(&mut self, place: usize, targets: &Vec<Address>, paused: &Vec<bool>, now: u64)
        requires
            old(self).wf(),
            place < targets@.len(),
            paused@.len() == targets@.len(),
        ensures
            final(self).wf(),
            final(self)@ == switched(old(self)@, place as nat, targets@, paused@, now),
    {
        let count: usize = targets.len();
        let mut text: String = copy_of("Target ");
        push_decimal(&mut text, (place + 1) as u64);
        push_text(&mut text, "/");
        push_decimal(&mut text, count as u64);
        push_text(&mut text, ": ");
        push_text(&mut text, targets[place].text.as_str());
        self.show_target(place, paused);
        self.set_status(text.as_str(), now);
    }

    fn next_target(&mut self, ctx: &Context)
        requires
            old(self).wf(),
            ctx.targets@.len() > 1,
            old(self).selected_target < ctx.targets@.len(),
            ctx.paused@.len() == ctx.targets@.len(),
        ensures
            final(self).wf(),
            final(self)@ == switched(
                old(self)@,
                following(old(self)@.selected_target, ctx.targets@.len()),
                ctx.targets@,
                ctx.paused@,
                ctx.now,
            ),
    {
        let place: usize = next_place(self.selected_target, ctx.targets.len());
        self.switch_target(place, ctx.targets, ctx.paused, ctx.now);
    }

    fn previous_target(&mut self, ctx: &Context)
        requires
            old(self).wf(),
            ctx.targets@.len() > 1,
            old(self).selected_target < ctx.targets@.len(),
            ctx.paused@.len() == ctx.targets@.len(),
        ensures
            final(self).wf(),
            final(self)@ == switched(
                old(self)@,
                previous(old(self)@.selected_target, ctx.targets@.len()),
                ctx.targets@,
                ctx.paused@,
                ctx.now,
            ),
    {
        let place: usize = last_before(self.selected_target, ctx.targets.len());
        self.switch_target(place, ctx.targets, ctx.paused, ctx.now);
    }

    fn toggle_probing(&mut self, now: u64) -> (r: Action)
        requires
            old(self).wf(),
        ensures
            final(self).wf(),
            (final(self)@, r@) == pause_step(old(self)@, now),
    {
        if self.replay_state.is_some() {
            return Action::Replay(ReplayCommand::TogglePause);
        }
        self.paused = !self.paused;
        let paused: bool = self.paused;
        self.set_status(
            if paused {
                "Paused"
            } else {
                "Resumed"
            },
            now,
        );
        Action::SetPaused(paused)
    }

    fn cycle_theme(&mut self, theme_names: &Vec<String>, now: u64)
        requires
            old(self).wf(),
            old(self).theme_index < theme_names@.len(),
        ensures
            final(self).wf(),
            final(self)@ == theme_cycled(old(self)@, theme_names@, now),
    {
        let theme: usize = next_place(self.theme_index, theme_names.len());
        self.theme_index = theme;
        self.settings.theme_index = theme;
        let mut text: String = copy_of("Theme: ");
        push_text(&mut text, theme_names[theme].as_str());
        self.set_status(text.as_str(), now);
    }

    fn cycle_mode(&mut self, now: u64)
        requires
            old(self).wf(),
        ensures
            final(self).wf(),
            final(self)@ == mode_cycled(old(self)@, now),
    {
        self.display_mode = self.display_mode.next();
        self.settings.display_mode = self.display_mode;
        let mut text: String = copy_of("Display: ");
        push_text(&mut text, self.display_mode.label());
        self.set_status(text.as_str(), now);
    }

    fn open_settings(&mut self)
        requires
            old(self).wf(),
        ensures
            final(self).wf(),
            final(self)@ == settings_opened(old(self)@),
    {
        let key: Option<String> = typed_key(self.settings.api_key.as_str());
        self.settings = SettingsState::new(self.theme_index, self.display_mode, key);
        self.show_settings = true;
        assert(self.settings.api_key@ =~= old(self).settings.api_key@);
    }

    fn open_input(&mut self)
        requires
            old(self).wf(),
        ensures
            final(self).wf(),
            final(self)@ == (UiModel {
                input: fresh_input(),
                show_target_input: true,
                ..old(self)@
            }),
    {
        self.target_input = TargetInputState::default();
        assert(self.target_input@.line.text =~= Seq::empty());
        self.show_target_input = true;
    }

    fn move_hop_up(&mut self, hops: usize)
        requires
            old(self).wf(),
        ensures
            final(self).wf(),
            final(self)@ == hop_up(old(self)@, hops as nat),
    {
        if hops > 0 {
            self.selected = Some(
                match self.selected {
                    Some(i) => if i > 0 {
                        i - 1
                    } else {
                        hops - 1
                    },
                    None => hops - 1,
                },
            );
        }
    }

    fn move_hop_down(&mut self, hops: usize)
        requires
            old(self).wf(),
        ensures
            final(self).wf(),
            final(self)@ == hop_down(old(self)@, hops as nat),
    {
        if hops > 0 {
            self.selected = Some(
                match self.selected {
                    Some(i) => if i < hops - 1 {
                        i + 1
                    } else {
                        0
                    },
                    None => 0,
                },
            );
        }
    }

    fn replay_action(&self, command: ReplayCommand) -> (r: Action)
        ensures
            (self@, r@) == replay_step(self@, command),
    {
        if self.replay_state.is_some() {
            Action::Replay(command)
        } else {
            Action::Keep
        }
    }

    fn open_help(&mut self)
        requires
            old(self).wf(),
        ensures
            final(self).wf(),
            final(self)@ == (UiModel { show_help: true, ..old(self)@ }),
    {
        self.show_help = true;
    }

    fn open_list(&mut self)
        requires
            old(self).wf(),
        ensures
            final(self).wf(),
            final(self)@ == (UiModel {
                target_list_index: old(self)@.selected_target,
                show_target_list: true,
                list_cached: true,
                list_tick: 0,
                ..old(self)@
            }),
    {
        self.target_list_index = self.selected_target;
        self.show_target_list = true;
        self.target_list_cached = true;
        self.target_list_tick = 0;
    }

    fn dismiss_update(&mut self)
        requires
            old(self).wf(),
        ensures
            final(self).wf(),
            final(self)@ == (UiModel { update_available: None, ..old(self)@ }),
    {
        self.update_available = None;
    }

    fn handle_move_char(&mut self, c: char, hops: usize) -> (r: Action)
        requires
            old(self).wf(),
        ensures
            final(self).wf(),
            (final(self)@, r@) == move_char_step(old(self)@, c, hops as nat),
    {
        if c == 'k' {
            self.move_hop_up(hops);
            Action::Keep
        } else if c == 'j' {
            self.move_hop_down(hops);
            Action::Keep
        } else if c == '[' {
            self.replay_action(ReplayCommand::Seek(-5000))
        } else if c == ']' {
            self.replay_action(ReplayCommand::Seek(5000))
        } else if c == '+' || c == '>' {
            self.replay_action(ReplayCommand::Faster)
        } else if c == '-' || c == '<' {
            self.replay_action(ReplayCommand::Slower)
        } else {
            Action::Keep
        }
    }

    fn handle_open_char(&mut self, c: char, targets: usize, can_add: bool, hops: usize) -> (r:
        Action)
        requires
            old(self).wf(),
        ensures
            final(self).wf(),
            (final(self)@, r@) == open_char_step(
                old(self)@,
                c,
                targets as nat,
                can_add,
                hops as nat,
            ),
    {
        if c == '?' || c == 'h' {
            self.open_help();
            Action::Keep
        } else if c == 's' {
            self.open_settings();
            Action::Keep
        } else if c == 'o' && self.replay_state.is_none() && can_add {
            self.open_input();
            Action::Keep
        } else if c == 'l' && targets > 1 {
            self.open_list();
            Action::LoadTargetList
        } else if c == 'u' && self.update_available.is_some() {
            self.dismiss_update();
            Action::Keep
        } else if c == 'e' {
            Action::Export
        } else {
            self.handle_move_char(c, hops)
        }
    }

    fn handle_char(&mut self, c: char, control: bool, ctx: &Context) -> (r: Action)
        requires
            old(self).wf(),
            old(self)@.in_range(ctx.targets@.len(), ctx.theme_names@.len()),
            ctx.paused@.len() == ctx.targets@.len(),
        ensures
            final(self).wf(),
            (final(self)@, r@) == char_step(
                old(self)@,
                c,
                control,
                ctx.targets@,
                ctx.paused@,
                ctx.theme_names@,
                ctx.can_add,
                ctx.hop_count as nat,
                ctx.now,
            ),
    {
        let many: bool = ctx.targets.len() > 1;
        if c == 'q' || (c == 'c' && control) || c == '\x03' {
            Action::Quit
        } else if c == 'n' && many {
            self.next_target(ctx);
            Action::Keep
        } else if c == 'N' && many {
            self.previous_target(ctx);
            Action::Keep
        } else if c == 'p' || c == ' ' {
            self.toggle_probing(ctx.now)
        } else if c == 'r' {
            self.set_status("Stats reset", ctx.now);
            Action::ResetStats
        } else if c == 't' {
            self.cycle_theme(ctx.theme_names, ctx.now);
            Action::Keep
        } else if c == 'w' {
            self.cycle_mode(ctx.now);
            Action::Keep
        } else {
            self.handle_open_char(c, ctx.targets.len(), ctx.can_add, ctx.hop_count)
        }
    }

    fn handle_main(&mut self, key: Key, control: bool, ctx: &Context) -> (r: Action)
        requires
            old(self).wf(),
            old(self)@.in_range(ctx.targets@.len(), ctx.theme_names@.len()),
            ctx.paused@.len() == ctx.targets@.len(),
        ensures
            final(self).wf(),
            (final(self)@, r@) == main_step(
                old(self)@,
                key,
                control,
                ctx.targets@,
                ctx.paused@,
                ctx.theme_names@,
                ctx.can_add,
                ctx.hop_count as nat,
                ctx.now,
            ),
    {
        let many: bool = ctx.targets.len() > 1;
        match key {
            Key::Char(c) => {
                return self.handle_char(c, control, ctx);
            },
            Key::Tab => {
                if many {
                    self.next_target(ctx);
                }
            },
            Key::BackTab => {
                if many {
                    self.previous_target(ctx);
                }
            },
            Key::Up => self.move_hop_up(ctx.hop_count),
            Key::Down => self.move_hop_down(ctx.hop_count),
            Key::Enter => {
                if self.selected.is_some() {
                    self.show_hop_detail = true;
                }
            },
            Key::Esc => {
                self.selected = None;
            },
            Key::Left => {
                return self.replay_action(ReplayCommand::Seek(-500));
            },
            Key::Right => {
                return self.replay_action(ReplayCommand::Seek(500));
            },
            Key::Home => {
                return self.replay_action(ReplayCommand::Start);
            },
            Key::End => {
                return self.replay_action(ReplayCommand::End);
            },
            _ => {},
        }
        Action::Keep
    }

    /// Handles a key that was pressed. The topmost popup takes it; what is
    /// left for the program to do is returned.
    pub fn handle_key(&mut self, key: Key, control: bool, ctx: &Context) -> (r: Action)
        requires
            old(self).wf(),
            old(self).has_room(),
            old(self)@.in_range(ctx.targets@.len(), ctx.theme_names@.len()),
            old(self).selected matches Some(i) ==> i < usize::MAX,
            ctx.paused@.len() == ctx.targets@.len(),
            ctx.theme_names@.len() + 5 <= usize::MAX,
        ensures
            final(self).wf(),
            (final(self)@, r@) == key_step(old(self)@, key, control, *ctx),
            final(self)@.in_range(ctx.targets@.len(), ctx.theme_names@.len()),
    {
        proof {
            law_selections_stay_in_range(self@, key, control, *ctx);
        }
        if self.show_help {
            self.show_help = false;
            Action::Keep
        } else if self.show_target_input {
            self.handle_input(key, control, ctx.can_add)
        } else if self.show_settings {
            self.handle_settings(key, control, ctx.theme_names.len(), ctx.ix_enabled, ctx.now)
        } else if self.show_hop_detail {
            self.handle_detail(key, ctx.hop_count);
            Action::Keep
        } else if self.show_target_list {
            self.handle_list(key, ctx.targets.len(), ctx.paused);
            Action::Keep
        } else {
            self.handle_main(key, control, ctx)
        }
    }
}

/// No key takes a selection out of range.
pub proof fn law_selections_stay_in_range(u: UiModel, key: Key, control: bool, ctx: Context)
    requires
        u.in_range(ctx.targets@.len(), ctx.theme_names@.len()),
    ensures
        key_step(u, key, control, ctx).0.in_range(ctx.targets@.len(), ctx.theme_names@.len()),
{
}

} // verus!
