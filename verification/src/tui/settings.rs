//! The settings popup.

use crate::lookup::ix::CacheStatus;
use crate::prefs::DisplayMode;
use crate::text::{byte_len, copy_of, decimal, push_decimal, push_text, text_bytes, texts};
use crate::tui::edit::{
    cursor_left, cursor_right, delete_char, edit, erase_char, is_boundary, lemma_end_is_boundary,
    split, type_char, Edit,
};
use crate::tui::line::{
    add_blank, add_line, add_two_part, line_views, no_text, plain_line, popup, popup_spec,
    two_part_line, Line, Rect, Role, SpanView,
};
use vstd::prelude::*;

verus! {

/// How many themes are listed at once.
pub const VISIBLE_THEMES: usize = 5;

/// Whether the selected theme is among those that are listed.
pub open spec fn selection_visible(state: SettingsState) -> bool {
    state.theme_scroll <= state.theme_index < state.theme_scroll + VISIBLE_THEMES
}

/// State of the settings popup.
#[derive(Clone, Debug)]
pub struct SettingsState {
    /// 0 is the theme section, 1 the display mode section, 2 the PeeringDB
    /// section.
    pub selected_section: usize,
    /// First theme of the list that is shown.
    pub theme_scroll: usize,
    /// Selected theme.
    pub theme_index: usize,
    /// Display mode for column widths.
    pub display_mode: DisplayMode,
    /// PeeringDB API key as typed.
    pub api_key: String,
    /// Cursor in the API key, as a byte offset.
    pub api_key_cursor: usize,
}

impl Default for SettingsState {
    fn default() -> (r: SettingsState)
        ensures
            r.wf(),
            r.selected_section == 0,
            r.theme_scroll == 0,
            r.theme_index == 0,
            r.display_mode == DisplayMode::Auto,
            r.api_key@.len() == 0,
            r.api_key_cursor == 0,
    {
        let key: String = String::new();
        proof {
            lemma_end_is_boundary(key@);
        }
        SettingsState {
            selected_section: 0,
            theme_scroll: 0,
            theme_index: 0,
            display_mode: DisplayMode::Auto,
            api_key: key,
            api_key_cursor: 0,
        }
    }
}

impl SettingsState {
    /// Whether the cursor stands between characters of the key.
    pub open spec fn wf(self) -> bool {
        is_boundary(self.api_key@, self.api_key_cursor as nat)
    }

    /// The key and the place of the cursor in it.
    pub open spec fn key_edit(self) -> Edit {
        edit(self.api_key@, self.api_key_cursor as nat)
    }

    /// Whether all but the key and its cursor is the same.
    pub open spec fn same_but_key(self, other: SettingsState) -> bool {
        self.selected_section == other.selected_section && self.theme_scroll == other.theme_scroll
            && self.theme_index == other.theme_index && self.display_mode == other.display_mode
    }

    /// Whether the key and its cursor are the same.
    pub open spec fn same_key(self, other: SettingsState) -> bool {
        self.api_key@ == other.api_key@ && self.api_key_cursor == other.api_key_cursor
    }

    /// Whether typing a character leads from here to `next`.
    pub open spec fn types_to(self, c: char, next: SettingsState) -> bool {
        &&& next.wf()
        &&& next.key_edit() == self.key_edit().typed(c)
        &&& next.api_key_cursor == self.api_key_cursor + crate::text::char_bytes(c)
        &&& next.same_but_key(self)
    }

    /// Whether a backspace leads from here to `next`.
    pub open spec fn erases_to(self, next: SettingsState) -> bool {
        &&& next.wf()
        &&& next.key_edit() == self.key_edit().erased()
        &&& next.same_but_key(self)
    }

    /// Whether moving up in the list leads from here to `next`.
    pub open spec fn moves_up_to(self, next: SettingsState) -> bool {
        &&& next.theme_index == (if self.selected_section == 0 && self.theme_index > 0 {
            (self.theme_index - 1) as usize
        } else {
            self.theme_index
        })
        &&& next.theme_scroll == (if next.theme_index < self.theme_index && next.theme_index
            < self.theme_scroll {
            next.theme_index
        } else {
            self.theme_scroll
        })
        &&& next.selected_section == self.selected_section
        &&& next.display_mode == self.display_mode
        &&& next.same_key(self)
    }

    /// Whether moving down in a list of `count` themes leads from here to
    /// `next`.
    pub open spec fn moves_down_to(self, count: usize, next: SettingsState) -> bool {
        &&& next.theme_index == (if self.selected_section == 0 && self.theme_index + 1 < count {
            (self.theme_index + 1) as usize
        } else {
            self.theme_index
        })
        &&& next.theme_scroll == (if next.theme_index > self.theme_index && next.theme_index
            >= self.theme_scroll + VISIBLE_THEMES {
            (next.theme_index - VISIBLE_THEMES + 1) as usize
        } else {
            self.theme_scroll
        })
        &&& next.selected_section == self.selected_section
        &&& next.display_mode == self.display_mode
        &&& next.same_key(self)
    }

    /// A backspace after a character, of however many bytes, restores the
    /// whole state.
    pub proof fn law_backspace_undoes_typing(self, c: char, typed: SettingsState, last: SettingsState)
        requires
            self.wf(),
            self.types_to(c, typed),
            typed.erases_to(last),
        ensures
            last.same_key(self),
            last.same_but_key(self),
    {
        let before = self.key_edit();
        crate::tui::edit::law_erase_undoes_typing(before, c);
        assert(last.key_edit() == before);
        crate::tui::edit::lemma_cursor_of_edit(self.api_key@, self.api_key_cursor as nat);
        crate::tui::edit::lemma_cursor_of_edit(last.api_key@, last.api_key_cursor as nat);
    }

    /// A backspace at the start of the key changes nothing.
    pub proof fn law_backspace_at_start(self, next: SettingsState)
        requires
            self.wf(),
            self.api_key_cursor == 0,
            self.erases_to(next),
        ensures
            next.same_key(self),
            next.same_but_key(self),
    {
        lemma_end_is_boundary(self.api_key@);
        assert(next.key_edit() == self.key_edit());
        crate::tui::edit::lemma_cursor_of_edit(self.api_key@, self.api_key_cursor as nat);
        crate::tui::edit::lemma_cursor_of_edit(next.api_key@, next.api_key_cursor as nat);
    }

    /// Moving up after moving down selects the same theme again, which is
    /// listed all the while.
    pub proof fn law_up_undoes_down(self, count: usize, down: SettingsState, up: SettingsState)
        requires
            self.selected_section == 0,
            selection_visible(self),
            self.theme_index + 1 < count,
            self.moves_down_to(count, down),
            down.moves_up_to(up),
        ensures
            up.theme_index == self.theme_index,
            selection_visible(down),
            selection_visible(up),
            up.selected_section == self.selected_section,
            up.display_mode == self.display_mode,
            up.same_key(self),
    {
    }

    /// Moving up changes nothing at the first theme or outside the list.
    pub proof fn law_up_stops(self, next: SettingsState)
        requires
            self.theme_index == 0 || self.selected_section != 0,
            self.moves_up_to(next),
        ensures
            next.same_key(self),
            next.same_but_key(self),
    {
    }

    /// The state when the popup opens: the cursor stands after the key.
    pub fn new(theme_index: usize, display_mode: DisplayMode, api_key: Option<String>) -> (r:
        SettingsState)
        ensures
            r.wf(),
            r.selected_section == 0,
            r.theme_scroll == 0,
            r.theme_index == theme_index,
            r.display_mode == display_mode,
            r.api_key@ == (match api_key {
                Some(key) => key@,
                None => Seq::empty(),
            }),
            r.api_key_cursor == text_bytes(r.api_key@),
            r.key_edit().at == r.api_key@.len(),
    {
        let key: String = match api_key {
            Some(k) => k,
            None => String::new(),
        };
        proof {
            if api_key is None {
                assert(key@ =~= Seq::empty());
            }
            lemma_end_is_boundary(key@);
        }
        let cursor: usize = byte_len(key.as_str());
        SettingsState {
            selected_section: 0,
            theme_scroll: 0,
            theme_index,
            display_mode,
            api_key: key,
            api_key_cursor: cursor,
        }
    }

    /// Inserts a character at the cursor.
    pub fn handle_char(&mut self, c: char)
        requires
            old(self).wf(),
            text_bytes(old(self).api_key@) + 4 <= usize::MAX,
        ensures
            old(self).types_to(c, *final(self)),
    {
        type_char(&mut self.api_key, &mut self.api_key_cursor, c);
    }

    /// Deletes the character before the cursor.
    pub fn handle_backspace(&mut self)
        requires
            old(self).wf(),
        ensures
            old(self).erases_to(*final(self)),
    {
        erase_char(&mut self.api_key, &mut self.api_key_cursor);
    }

    /// Deletes the character at the cursor.
    pub fn handle_delete(&mut self)
        requires
            old(self).wf(),
        ensures
            final(self).wf(),
            final(self).key_edit() == old(self).key_edit().deleted(),
            final(self).api_key_cursor == old(self).api_key_cursor,
            final(self).same_but_key(*old(self)),
    {
        delete_char(&mut self.api_key, &mut self.api_key_cursor);
    }

    /// Moves the cursor left.
    pub fn move_cursor_left(&mut self)
        requires
            old(self).wf(),
        ensures
            final(self).wf(),
            final(self).key_edit() == old(self).key_edit().left(),
            final(self).same_but_key(*old(self)),
    {
        cursor_left(&self.api_key, &mut self.api_key_cursor);
    }

    /// Moves the cursor right.
    pub fn move_cursor_right(&mut self)
        requires
            old(self).wf(),
        ensures
            final(self).wf(),
            final(self).key_edit() == old(self).key_edit().right(),
            final(self).same_but_key(*old(self)),
    {
        cursor_right(&self.api_key, &mut self.api_key_cursor);
    }

    /// Moves the selection up in the theme list, which scrolls along so that
    /// what was visible stays visible.
    pub fn move_up(&mut self, _theme_count: usize)
        ensures
            old(self).moves_up_to(*final(self)),
            selection_visible(*old(self)) ==> selection_visible(*final(self)),
    {
        if self.selected_section == 0 {
            if self.theme_index > 0 {
                self.theme_index = self.theme_index - 1;
                if self.theme_index < self.theme_scroll {
                    self.theme_scroll = self.theme_index;
                }
            }
        }
    }

    /// Moves the selection down in the theme list, which scrolls along so that
    /// what was visible stays visible.
    pub fn move_down(&mut self, theme_count: usize)
        requires
            old(self).theme_scroll + VISIBLE_THEMES <= usize::MAX,
        ensures
            old(self).moves_down_to(theme_count, *final(self)),
            selection_visible(*old(self)) ==> selection_visible(*final(self)),
    {
        if self.selected_section == 0 {
            if self.theme_index < theme_count && theme_count - self.theme_index > 1 {
                self.theme_index = self.theme_index + 1;
                if self.theme_index >= self.theme_scroll + VISIBLE_THEMES {
                    self.theme_scroll = self.theme_index - VISIBLE_THEMES + 1;
                }
            }
        }
    }

    /// Goes on to the next section; the last one exists only with IX
    /// detection.
    pub fn next_section(&mut self, ix_enabled: bool)
        requires
            old(self).selected_section < usize::MAX,
        ensures
            final(self).selected_section == (old(self).selected_section + 1) % (if ix_enabled {
                3int
            } else {
                2
            }),
            final(self).theme_scroll == old(self).theme_scroll,
            final(self).theme_index == old(self).theme_index,
            final(self).display_mode == old(self).display_mode,
            final(self).same_key(*old(self)),
    {
        let sections: usize = if ix_enabled {
            3
        } else {
            2
        };
        self.selected_section = (self.selected_section + 1) % sections;
    }

    /// Cycles the display mode, in its section. (A theme is selected by moving
    /// to it.)
    pub fn select(&mut self)
        ensures
            final(self).display_mode == (if old(self).selected_section == 1 {
                old(self).display_mode.successor()
            } else {
                old(self).display_mode
            }),
            final(self).selected_section == old(self).selected_section,
            final(self).theme_scroll == old(self).theme_scroll,
            final(self).theme_index == old(self).theme_index,
            final(self).same_key(*old(self)),
    {
        if self.selected_section == 1 {
            self.display_mode = self.display_mode.next();
        }
    }
}

/// The age of the cached data as text.
pub open spec fn age_text(age: nat) -> Seq<char> {
    if age < 60 {
        "just now"@
    } else if age < 3600 {
        decimal(age / 60) + "m ago"@
    } else if age < 86400 {
        decimal(age / 3600) + "h ago"@
    } else {
        decimal(age / 86400) + "d ago"@
    }
}

/// Seconds from one point in time to another, zero if it lies ahead.
pub open spec fn seconds_since(then: u64, now: u64) -> nat {
    if now >= then {
        (now - then) as nat
    } else {
        0
    }
}

/// The settings popup.
pub struct SettingsView<'a> {
    pub state: &'a SettingsState,
    pub theme_names: &'a Vec<String>,
    pub cache_status: Option<CacheStatus>,
    pub ix_enabled: bool,
}

/// The name of a section.
pub open spec fn section_header(name: Seq<char>, active: bool) -> Seq<SpanView> {
    plain_line(
        name,
        if active {
            Role::ActiveHeader
        } else {
            Role::Dim
        },
    )
}

/// The line of a theme.
pub open spec fn theme_line(
    state: SettingsState,
    names: Seq<Seq<char>>,
    i: int,
) -> Seq<SpanView> {
    let selected = i == state.theme_index;
    plain_line(
        "    "@ + (if selected {
            "\u{25cf}"@
        } else {
            "\u{25cb}"@
        }) + " "@ + names[i],
        if selected && state.selected_section == 0 {
            Role::ActiveShortcut
        } else if selected {
            Role::Text
        } else {
            Role::Dim
        },
    )
}

/// Lines, and after them those of `n` themes from the scroll position on.
pub open spec fn with_themes(
    lines: Seq<Seq<SpanView>>,
    state: SettingsState,
    names: Seq<Seq<char>>,
    n: nat,
) -> Seq<Seq<SpanView>>
    decreases n,
{
    if n == 0 {
        lines
    } else {
        with_themes(lines, state, names, (n - 1) as nat).push(
            theme_line(state, names, state.theme_scroll + n - 1),
        )
    }
}

/// How many themes are listed.
pub open spec fn listed_themes(state: SettingsState, count: nat) -> nat {
    let end = if state.theme_scroll + VISIBLE_THEMES <= count {
        (state.theme_scroll + VISIBLE_THEMES) as nat
    } else {
        count
    };
    (end - state.theme_scroll) as nat
}

/// The theme section.
pub open spec fn theme_section(state: SettingsState, names: Seq<Seq<char>>) -> Seq<Seq<SpanView>> {
    let n = listed_themes(state, names.len());
    let top = Seq::empty().push(section_header("  Theme"@, state.selected_section == 0)).push(
        if state.theme_scroll > 0 {
            plain_line("    \u{25b2} more"@, Role::Dim)
        } else {
            no_text()
        },
    );
    with_themes(top, state, names, n).push(
        if state.theme_scroll + n < names.len() {
            plain_line("    \u{25bc} more"@, Role::Dim)
        } else {
            no_text()
        },
    ).push(no_text())
}

/// What a display mode does.
pub open spec fn mode_description(mode: DisplayMode) -> Seq<char> {
    match mode {
        DisplayMode::Auto => "fit columns to content"@,
        DisplayMode::Compact => "minimal column widths"@,
        DisplayMode::Wide => "generous column widths"@,
    }
}

/// Lines, and after them the display mode section.
pub open spec fn with_display_section(
    lines: Seq<Seq<SpanView>>,
    state: SettingsState,
) -> Seq<Seq<SpanView>> {
    lines.push(section_header("  Display Mode"@, state.selected_section == 1)).push(
        plain_line(
            "    ["@ + state.display_mode.name() + "]  (Enter to cycle)"@,
            if state.selected_section == 1 {
                Role::ActiveShortcut
            } else {
                Role::Dim
            },
        ),
    ).push(plain_line("    "@ + mode_description(state.display_mode), Role::Dim))
}

/// The API key as shown: with the cursor in it while its section is active.
pub open spec fn shown_key(state: SettingsState) -> Seq<char> {
    let e = state.key_edit();
    if state.api_key@.len() == 0 {
        "(not set)"@
    } else if state.selected_section == 2 {
        e.text.take(e.at) + "\u{2502}"@ + e.text.skip(e.at)
    } else {
        state.api_key@
    }
}

/// The state of the cached data.
pub open spec fn cache_text(status: CacheStatus, now: u64) -> Seq<char> {
    if status.refreshing {
        "    Cache: Refreshing..."@
    } else if !status.loaded && status.prefix_count == 0 {
        "    Cache: Not loaded"@
    } else {
        "    Cache: "@ + decimal(status.prefix_count as nat) + " prefixes, "@ + (
        match status.fetched_at {
            Some(t) => age_text(seconds_since(t, now)),
            None => "unknown"@,
        }) + (if status.expired {
            " (expired)"@
        } else {
            ""@
        })
    }
}

/// Lines, and after them the state of the cached data.
pub open spec fn with_cache(
    lines: Seq<Seq<SpanView>>,
    state: SettingsState,
    status: Option<CacheStatus>,
    now: u64,
) -> Seq<Seq<SpanView>> {
    match status {
        Some(s) => lines.push(plain_line(cache_text(s, now), Role::Dim)).push(
            if state.selected_section == 2 && !s.refreshing {
                plain_line("    Press Ctrl+R to refresh cache"@, Role::Dim)
            } else {
                no_text()
            },
        ),
        None => lines,
    }
}

/// Lines, and after them the PeeringDB section.
pub open spec fn with_peeringdb(
    lines: Seq<Seq<SpanView>>,
    state: SettingsState,
    status: Option<CacheStatus>,
    now: u64,
) -> Seq<Seq<SpanView>> {
    let active = state.selected_section == 2;
    with_cache(
        lines.push(no_text()).push(section_header("  PeeringDB (IX Detection)"@, active)).push(
            two_part_line(
                "    API Key: "@,
                if active {
                    Role::Text
                } else {
                    Role::Dim
                },
                shown_key(state),
                if active {
                    Role::ActiveShortcut
                } else {
                    Role::Dim
                },
            ),
        ),
        state,
        status,
        now,
    )
}

/// All lines of the popup.
pub open spec fn settings_lines(
    state: SettingsState,
    names: Seq<Seq<char>>,
    status: Option<CacheStatus>,
    ix_enabled: bool,
    now: u64,
) -> Seq<Seq<SpanView>> {
    let first = with_display_section(theme_section(state, names), state);
    let second = if ix_enabled {
        with_peeringdb(first, state, status, now)
    } else {
        first
    };
    second.push(no_text()).push(
        plain_line("  \u{2191}\u{2193} navigate  Tab section  Enter select"@, Role::Dim),
    ).push(plain_line("  Esc close"@, Role::Dim))
}

impl<'a> SettingsView<'a> {
    /// The popup for a state.
    pub fn new(
        state: &'a SettingsState,
        theme_names: &'a Vec<String>,
        cache_status: Option<CacheStatus>,
        ix_enabled: bool,
    ) -> (r: SettingsView<'a>)
        ensures
            *r.state == *state,
            r.theme_names@ == theme_names@,
            r.cache_status == cache_status,
            r.ix_enabled == ix_enabled,
    {
        SettingsView { state, theme_names, cache_status, ix_enabled }
    }

    /// The age of the cached data as text.
    pub fn format_cache_age(fetched_at: u64, now: u64) -> (r: String)
        ensures
            r@ == age_text(seconds_since(fetched_at, now)),
    {
        let age: u64 = now.saturating_sub(fetched_at);
        if age < 60 {
            return copy_of("just now");
        }
        let mut out: String = String::new();
        assert(out@ =~= Seq::empty());
        if age < 3600 {
            push_decimal(&mut out, age / 60);
            assert(out@ =~= decimal((age / 60) as nat));
            push_text(&mut out, "m ago");
        } else if age < 86400 {
            push_decimal(&mut out, age / 3600);
            assert(out@ =~= decimal((age / 3600) as nat));
            push_text(&mut out, "h ago");
        } else {
            push_decimal(&mut out, age / 86400);
            assert(out@ =~= decimal((age / 86400) as nat));
            push_text(&mut out, "d ago");
        }
        out
    }

    /// Where the popup stands; it is taller with IX detection.
    pub fn area(&self, screen: Rect) -> (r: Rect)
        requires
            screen.fits(),
        ensures
            r == popup_spec(
                screen,
                44,
                if self.ix_enabled {
                    23
                } else {
                    17
                },
            ),
    {
        popup(
            screen,
            44,
            if self.ix_enabled {
                23
            } else {
                17
            },
        )
    }

    fn theme_lines(&self) -> (r: Vec<Line>)
        requires
            self.state.theme_scroll <= self.theme_names@.len(),
        ensures
            line_views(r@) == theme_section(*self.state, texts(self.theme_names@)),
    {
        let state: &SettingsState = self.state;
        let ghost names = texts(self.theme_names@);
        let count: usize = self.theme_names.len();
        let left: usize = count - state.theme_scroll;
        let n: usize = if left >= VISIBLE_THEMES {
            VISIBLE_THEMES
        } else {
            left
        };
        let mut lines: Vec<Line> = Vec::new();
        assert(line_views(lines@) =~= Seq::empty());
        add_line(
            &mut lines,
            "  Theme",
            if state.selected_section == 0 {
                Role::ActiveHeader
            } else {
                Role::Dim
            },
        );
        if state.theme_scroll > 0 {
            add_line(&mut lines, "    \u{25b2} more", Role::Dim);
        } else {
            add_blank(&mut lines);
        }
        let ghost top = line_views(lines@);
        let mut i: usize = 0;
        while i < n
            invariant
                i <= n,
                state.theme_scroll + n <= self.theme_names@.len(),
                *state == *self.state,
                names == texts(self.theme_names@),
                line_views(lines@) == with_themes(top, *state, names, i as nat),
            decreases n - i,
        {
            assert(state.theme_scroll + i < self.theme_names.len());
            let at: usize = state.theme_scroll + i;
            let selected: bool = at == state.theme_index;
            let mut text: String = copy_of("    ");
            push_text(
                &mut text,
                if selected {
                    "\u{25cf}"
                } else {
                    "\u{25cb}"
                },
            );
            push_text(&mut text, " ");
            push_text(&mut text, self.theme_names[at].as_str());
            let role: Role = if selected && state.selected_section == 0 {
                Role::ActiveShortcut
            } else if selected {
                Role::Text
            } else {
                Role::Dim
            };
            add_line(&mut lines, text.as_str(), role);
            i = i + 1;
        }
        if state.theme_scroll + n < count {
            add_line(&mut lines, "    \u{25bc} more", Role::Dim);
        } else {
            add_blank(&mut lines);
        }
        add_blank(&mut lines);
        lines
    }

    fn key_text(&self) -> (r: String)
        requires
            self.state.wf(),
        ensures
            r@ == shown_key(*self.state),
    {
        let state: &SettingsState = self.state;
        if crate::text::char_count(state.api_key.as_str()) == 0 {
            copy_of("(not set)")
        } else if state.selected_section == 2 {
            let (before, after) = split(&state.api_key, state.api_key_cursor);
            let mut out: String = before;
            push_text(&mut out, "\u{2502}");
            push_text(&mut out, after.as_str());
            out
        } else {
            copy_of(state.api_key.as_str())
        }
    }

    fn cache_line(status: &CacheStatus, now: u64) -> (r: String)
        ensures
            r@ == cache_text(*status, now),
    {
        if status.refreshing {
            return copy_of("    Cache: Refreshing...");
        }
        if !status.loaded && status.prefix_count == 0 {
            return copy_of("    Cache: Not loaded");
        }
        let age: String = match status.fetched_at {
            Some(t) => SettingsView::format_cache_age(t, now),
            None => copy_of("unknown"),
        };
        let mut out: String = copy_of("    Cache: ");
        push_decimal(&mut out, status.prefix_count as u64);
        push_text(&mut out, " prefixes, ");
        push_text(&mut out, age.as_str());
        push_text(
            &mut out,
            if status.expired {
                " (expired)"
            } else {
                ""
            },
        );
        out
    }

    /// The lines of the popup. `now` is the time in seconds since 1970.
    pub fn lines(&self, now: u64) -> (r: Vec<Line>)
        requires
            self.state.theme_scroll <= self.theme_names@.len(),
            self.state.wf(),
        ensures
            line_views(r@) == settings_lines(
                *self.state,
                texts(self.theme_names@),
                self.cache_status,
                self.ix_enabled,
                now,
            ),
    {
        let state: &SettingsState = self.state;
        let mut lines: Vec<Line> = self.theme_lines();
        add_line(
            &mut lines,
            "  Display Mode",
            if state.selected_section == 1 {
                Role::ActiveHeader
            } else {
                Role::Dim
            },
        );
        let mut mode: String = copy_of("    [");
        push_text(&mut mode, state.display_mode.label());
        push_text(&mut mode, "]  (Enter to cycle)");
        add_line(
            &mut lines,
            mode.as_str(),
            if state.selected_section == 1 {
                Role::ActiveShortcut
            } else {
                Role::Dim
            },
        );
        let mut about: String = copy_of("    ");
        push_text(
            &mut about,
            match state.display_mode {
                DisplayMode::Auto => "fit columns to content",
                DisplayMode::Compact => "minimal column widths",
                DisplayMode::Wide => "generous column widths",
            },
        );
        add_line(&mut lines, about.as_str(), Role::Dim);
        if self.ix_enabled {
            let active: bool = state.selected_section == 2;
            add_blank(&mut lines);
            add_line(
                &mut lines,
                "  PeeringDB (IX Detection)",
                if active {
                    Role::ActiveHeader
                } else {
                    Role::Dim
                },
            );
            let key: String = self.key_text();
            add_two_part(
                &mut lines,
                "    API Key: ",
                if active {
                    Role::Text
                } else {
                    Role::Dim
                },
                key.as_str(),
                if active {
                    Role::ActiveShortcut
                } else {
                    Role::Dim
                },
            );
            if let Some(status) = &self.cache_status {
                let text: String = SettingsView::cache_line(status, now);
                add_line(&mut lines, text.as_str(), Role::Dim);
                if active && !status.refreshing {
                    add_line(&mut lines, "    Press Ctrl+R to refresh cache", Role::Dim);
                } else {
                    add_blank(&mut lines);
                }
            }
        }
        add_blank(&mut lines);
        add_line(
            &mut lines,
            "  \u{2191}\u{2193} navigate  Tab section  Enter select",
            Role::Dim,
        );
        add_line(&mut lines, "  Esc close", Role::Dim);
        lines
    }
}

} // verus!
