//! The state of the interface.

use crate::prefs::DisplayMode;
use crate::session::Address;
use crate::text::{copy_of, opt_text, text_bytes};
use crate::tui::edit::Edit;
use crate::tui::replay::ReplayState;
use crate::tui::settings::SettingsState;
use crate::tui::target_input::TargetInputState;
use vstd::prelude::*;

verus! {

/// How long a status message stays, in nanoseconds.
pub const STATUS_LIFETIME: u64 = 3_000_000_000;

/// How many ticks the list of targets is kept before it is made anew.
pub const LIST_REFRESH_TICKS: u32 = 30;

/// A status message and when it came up, in nanoseconds.
#[derive(Clone, Debug)]
pub struct StatusMessage {
    pub text: String,
    pub shown_at: u64,
}

/// State of the interface.
#[derive(Clone, Debug)]
pub struct UiState {
    /// Selected hop, counted among those that are displayed.
    pub selected: Option<usize>,
    /// Whether probing is paused.
    pub paused: bool,
    pub show_help: bool,
    pub show_hop_detail: bool,
    pub show_settings: bool,
    pub settings: SettingsState,
    pub status_message: Option<StatusMessage>,
    pub theme_index: usize,
    pub display_mode: DisplayMode,
    /// Target on show.
    pub selected_target: usize,
    pub show_target_list: bool,
    /// Selection in the list of targets.
    pub target_list_index: usize,
    /// A newer version that can be had.
    pub update_available: Option<String>,
    /// Whether the result of the update check is awaited.
    pub awaiting_update: bool,
    /// The replay, if this is one.
    pub replay_state: Option<ReplayState>,
    /// Whether the list of targets has been made.
    pub target_list_cached: bool,
    /// Ticks since the list of targets was opened.
    pub target_list_tick: u32,
    pub show_target_input: bool,
    pub target_input: TargetInputState,
}

/// Settings by their values.
pub struct SettingsModel {
    pub section: usize,
    pub scroll: usize,
    pub theme: usize,
    pub mode: DisplayMode,
    pub key: Edit,
}

/// The popup for adding a target by its values.
pub struct InputModel {
    pub line: Edit,
    pub error: Option<Seq<char>>,
    pub resolving: bool,
    pub pending: bool,
}

/// The state of the interface by its values.
pub struct UiModel {
    pub selected: Option<usize>,
    pub paused: bool,
    pub show_help: bool,
    pub show_hop_detail: bool,
    pub show_settings: bool,
    pub settings: SettingsModel,
    pub status: Option<(Seq<char>, u64)>,
    pub theme_index: usize,
    pub display_mode: DisplayMode,
    pub selected_target: usize,
    pub show_target_list: bool,
    pub target_list_index: usize,
    pub update_available: Option<Seq<char>>,
    pub awaiting_update: bool,
    pub replay: Option<ReplayState>,
    pub list_cached: bool,
    pub list_tick: u32,
    pub show_target_input: bool,
    pub input: InputModel,
}

impl View for SettingsState {
    type V = SettingsModel;

    open spec fn view(&self) -> SettingsModel {
        SettingsModel {
            section: self.selected_section,
            scroll: self.theme_scroll,
            theme: self.theme_index,
            mode: self.display_mode,
            key: self.key_edit(),
        }
    }
}

impl View for TargetInputState {
    type V = InputModel;

    open spec fn view(&self) -> InputModel {
        InputModel {
            line: self.editing(),
            error: opt_text(self.error),
            resolving: self.resolving,
            pending: self.pending,
        }
    }
}

/// A status message by its values.
pub open spec fn status_view(s: Option<StatusMessage>) -> Option<(Seq<char>, u64)> {
    match s {
        Some(m) => Some((m.text@, m.shown_at)),
        None => None,
    }
}

impl View for UiState {
    type V = UiModel;

    open spec fn view(&self) -> UiModel {
        UiModel {
            selected: self.selected,
            paused: self.paused,
            show_help: self.show_help,
            show_hop_detail: self.show_hop_detail,
            show_settings: self.show_settings,
            settings: self.settings@,
            status: status_view(self.status_message),
            theme_index: self.theme_index,
            display_mode: self.display_mode,
            selected_target: self.selected_target,
            show_target_list: self.show_target_list,
            target_list_index: self.target_list_index,
            update_available: opt_text(self.update_available),
            awaiting_update: self.awaiting_update,
            replay: self.replay_state,
            list_cached: self.target_list_cached,
            list_tick: self.target_list_tick,
            show_target_input: self.show_target_input,
            input: self.target_input@,
        }
    }
}

impl UiModel {
    /// The state with a status message.
    pub open spec fn says(self, text: Seq<char>, now: u64) -> UiModel {
        UiModel { status: Some((text, now)), ..self }
    }

    /// Whether selections lie within `targets` targets and `themes` themes.
    pub open spec fn in_range(self, targets: nat, themes: nat) -> bool {
        &&& self.selected_target < targets || targets == 0
        &&& self.show_target_list ==> self.target_list_index < targets
        &&& self.theme_index < themes
        &&& self.settings.theme < themes
        &&& self.settings.scroll < themes
        &&& self.settings.section <= 2
    }
}

/// The popup for adding a target when it opens.
pub open spec fn fresh_input() -> InputModel {
    InputModel {
        line: Edit { text: Seq::empty(), at: 0 },
        error: None,
        resolving: false,
        pending: false,
    }
}

/// A reply to the request for a target.
#[derive(Clone, Debug)]
pub enum AddReply {
    /// The target is traced from now on, or was before.
    Added { address: Address, name: String, existed: bool },
    /// The target was refused.
    Refused(String),
    /// There is no reply yet.
    Waiting,
    /// There will be no reply.
    Gone,
}

/// Where an address stands among targets, or how many there are.
pub open spec fn place_of(targets: Seq<Address>, ip: crate::addr::IpAddr) -> nat
    decreases targets.len(),
{
    if targets.len() == 0 || targets[0].ip == ip {
        0
    } else {
        1 + place_of(targets.skip(1), ip)
    }
}

/// Where an address stands among targets, or how many there are.
pub fn find_target(targets: &Vec<Address>, ip: crate::addr::IpAddr) -> (r: usize)
    ensures
        r == place_of(targets@, ip),
        r <= targets@.len(),
        r < targets@.len() ==> targets@[r as int].ip == ip,
{
    let mut i: usize = 0;
    assert(targets@.skip(0) =~= targets@);
    while i < targets.len() && targets[i].ip != ip
        invariant
            i <= targets@.len(),
            i + place_of(targets@.skip(i as int), ip) == place_of(targets@, ip),
        decreases targets@.len() - i,
    {
        assert(targets@.skip(i as int).skip(1) =~= targets@.skip(i + 1));
        i = i + 1;
    }
    i
}

/// The message after a target was added.
pub open spec fn added_text(name: Seq<char>, ip: Seq<char>, existed: bool) -> Seq<char> {
    (if existed {
        "Already tracing "@
    } else {
        "Added target "@
    }) + name + " ("@ + ip + ")"@
}

/// A result of the update check.
#[derive(Clone, Debug)]
pub enum UpdateReply {
    /// The check is over; it may have found a newer version.
    Done(Option<String>),
    /// There will be no result.
    Gone,
    /// There is no result yet.
    Waiting,
}

impl UiState {
    /// Whether the cursors of the popups are in place and the replay is in
    /// order.
    pub open spec fn wf(self) -> bool {
        self.settings.wf() && self.target_input.wf() && (self.replay_state matches Some(r)
            ==> r.wf())
    }

    /// Whether one more character fits into the popups.
    pub open spec fn has_room(self) -> bool {
        text_bytes(self.settings.api_key@) + 4 <= usize::MAX && self.target_input.input@.len()
            < usize::MAX
    }

    /// Whether all selections exist.
    pub fn is_in_range(&self, targets: usize, themes: usize) -> (r: bool)
        ensures
            r == self@.in_range(targets as nat, themes as nat),
    {
        (self.selected_target < targets || targets == 0) && (!self.show_target_list
            || self.target_list_index < targets) && self.theme_index < themes
            && self.settings.theme_index < themes && self.settings.theme_scroll < themes
            && self.settings.selected_section <= 2
    }

    /// The state when the interface opens.
    pub fn new(
        theme_index: usize,
        display_mode: DisplayMode,
        api_key: Option<String>,
        awaiting_update: bool,
        replay_state: Option<ReplayState>,
    ) -> (r: UiState)
        requires
            replay_state matches Some(x) ==> x.wf(),
        ensures
            r.wf(),
            r.selected is None,
            !r.paused,
            !r.show_help,
            !r.show_hop_detail,
            !r.show_settings,
            r.settings.selected_section == 0,
            r.settings.theme_scroll == 0,
            r.settings.theme_index == theme_index,
            r.settings.display_mode == display_mode,
            r.settings.api_key@ == (match api_key {
                Some(key) => key@,
                None => Seq::empty(),
            }),
            r.settings.key_edit().at == r.settings.api_key@.len(),
            r.status_message is None,
            r.theme_index == theme_index,
            r.display_mode == display_mode,
            r.selected_target == 0,
            !r.show_target_list,
            r.target_list_index == 0,
            r.update_available is None,
            r.awaiting_update == awaiting_update,
            r.replay_state == replay_state,
            !r.target_list_cached,
            r.target_list_tick == 0,
            !r.show_target_input,
            r.target_input@ == fresh_input(),
    {
        let settings: SettingsState = SettingsState::new(theme_index, display_mode, api_key);
        let target_input: TargetInputState = TargetInputState::default();
        assert(target_input@.line.text =~= Seq::empty());
        UiState {
            selected: None,
            paused: false,
            show_help: false,
            show_hop_detail: false,
            show_settings: false,
            settings,
            status_message: None,
            theme_index,
            display_mode,
            selected_target: 0,
            show_target_list: false,
            target_list_index: 0,
            update_available: None,
            awaiting_update,
            replay_state,
            target_list_cached: false,
            target_list_tick: 0,
            show_target_input: false,
            target_input,
        }
    }

    /// Shows a status message.
    pub fn set_status(&mut self, text: &str, now: u64)
        requires
            old(self).wf(),
        ensures
            final(self).wf(),
            final(self)@ == old(self)@.says(text@, now),
            final(self).settings == old(self).settings,
            final(self).target_input == old(self).target_input,
    {
        self.status_message = Some(StatusMessage { text: copy_of(text), shown_at: now });
    }

    /// Drops a status message that is older than its lifetime.
    pub fn clear_old_status(&mut self, now: u64)
        requires
            old(self).wf(),
        ensures
            final(self).wf(),
            final(self)@ == (match old(self)@.status {
                Some(s) => if now > s.1 && now - s.1 > STATUS_LIFETIME {
                    UiModel { status: None, ..old(self)@ }
                } else {
                    old(self)@
                },
                None => old(self)@,
            }),
    {
        let mut expired: bool = false;
        if let Some(s) = &self.status_message {
            expired = now > s.shown_at && now - s.shown_at > STATUS_LIFETIME;
        }
        if expired {
            self.status_message = None;
        }
    }

    /// Takes in the result of the update check, which comes once.
    pub fn take_update(&mut self, reply: UpdateReply)
        requires
            old(self).wf(),
        ensures
            final(self).wf(),
            final(self)@ == (if old(self)@.update_available is Some || !old(self)@.awaiting_update {
                old(self)@
            } else {
                match reply {
                    UpdateReply::Done(version) => UiModel {
                        update_available: opt_text(version),
                        awaiting_update: false,
                        ..old(self)@
                    },
                    UpdateReply::Gone => UiModel { awaiting_update: false, ..old(self)@ },
                    UpdateReply::Waiting => old(self)@,
                }
            }),
    {
        if self.update_available.is_some() || !self.awaiting_update {
            return;
        }
        match reply {
            UpdateReply::Done(version) => {
                self.update_available = version;
                self.awaiting_update = false;
            },
            UpdateReply::Gone => {
                self.awaiting_update = false;
            },
            UpdateReply::Waiting => {},
        }
    }

    /// Counts a tick while the list of targets is open. Whether the list is to
    /// be made anew is returned: it is when it opens, and after so many ticks.
    pub fn list_tick(&mut self) -> (r: bool)
        requires
            old(self).wf(),
            old(self).target_list_tick < u32::MAX,
        ensures
            final(self).wf(),
            final(self)@ == (if old(self)@.show_target_list {
                UiModel {
                    list_tick: (old(self)@.list_tick + 1) as u32,
                    list_cached: true,
                    ..old(self)@
                }
            } else {
                UiModel { list_tick: 0, list_cached: false, ..old(self)@ }
            }),
            r == (old(self)@.show_target_list && (!old(self)@.list_cached || (old(self)@.list_tick
                + 1) % LIST_REFRESH_TICKS as int == 0)),
    {
        if self.show_target_list {
            self.target_list_tick = self.target_list_tick + 1;
            let due: bool = !self.target_list_cached || self.target_list_tick % LIST_REFRESH_TICKS
                == 0;
            self.target_list_cached = true;
            due
        } else {
            self.target_list_cached = false;
            self.target_list_tick = 0;
            false
        }
    }

    /// Takes in the reply to a request for a target. A new target joins the
    /// others and is shown. Selections stay in range.
    pub fn take_add_reply(&mut self, reply: &AddReply, targets: &mut Vec<Address>, now: u64)
        requires
            old(self).wf(),
        ensures
            final(self).wf(),
            forall|themes: nat| #[trigger]
                old(self)@.in_range(old(targets)@.len(), themes) ==> final(self)@.in_range(
                    final(targets)@.len(),
                    themes,
                ),
            !old(self)@.input.pending ==> final(self)@ == old(self)@ && final(targets)@ == old(
                targets)@,
            old(self)@.input.pending ==> match *reply {
                AddReply::Added { address, name, existed } => {
                    let place = place_of(old(targets)@, address.ip);
                    &&& place < old(targets)@.len() ==> final(targets)@ == old(targets)@
                    &&& place >= old(targets)@.len() ==> final(targets)@.len() == old(
                        targets)@.len() + 1 && final(targets)@.drop_last() == old(targets)@
                        && final(targets)@.last()@ == address@
                    &&& final(self)@ == (UiModel {
                        input: fresh_input(),
                        show_target_input: false,
                        selected_target: place as usize,
                        selected: None,
                        ..old(self)@
                    }).says(added_text(name@, address.text@, existed), now)
                },
                AddReply::Refused(message) => final(targets)@ == old(targets)@ && final(self)@ == (
                UiModel {
                    input: InputModel {
                        error: Some(message@),
                        resolving: false,
                        pending: false,
                        ..old(self)@.input
                    },
                    ..old(self)@
                }),
                AddReply::Waiting => final(targets)@ == old(targets)@ && final(self)@ == old(
                    self)@,
                AddReply::Gone => final(targets)@ == old(targets)@ && final(self)@ == (UiModel {
                    input: InputModel {
                        error: Some("Target manager unavailable"@),
                        resolving: false,
                        pending: false,
                        ..old(self)@.input
                    },
                    ..old(self)@
                }),
            },
    {
        if !self.target_input.pending {
            return;
        }
        match reply {
            AddReply::Added { address, name, existed } => {
                self.target_input = TargetInputState::default();
                assert(self.target_input@.line.text =~= Seq::empty());
                self.show_target_input = false;
                let place: usize = find_target(targets, address.ip);
                if place == targets.len() {
                    let ghost before = targets@;
                    targets.push(address.copy());
                    assert(targets@.drop_last() =~= before);
                }
                self.selected_target = place;
                self.selected = None;
                let mut text: String = copy_of(
                    if *existed {
                        "Already tracing "
                    } else {
                        "Added target "
                    },
                );
                crate::text::push_text(&mut text, name.as_str());
                crate::text::push_text(&mut text, " (");
                crate::text::push_text(&mut text, address.text.as_str());
                crate::text::push_text(&mut text, ")");
                self.set_status(text.as_str(), now);
            },
            AddReply::Refused(message) => {
                self.target_input.refused(message.as_str());
            },
            AddReply::Waiting => {},
            AddReply::Gone => {
                self.target_input.refused("Target manager unavailable");
            },
        }
    }
}

} // verus!
