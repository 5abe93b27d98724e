//! The popup for adding a target.

use crate::fields::{trim, trimmed};
use crate::text::{chars_of, copy_of, opt_text, string_of};
use crate::tui::edit::Edit;
use crate::tui::key::Key;
use crate::tui::line::{
    add_blank, add_line, line_views, no_text, plain_line, smaller, Line, Rect, Role, Span, SpanView,
};
use vstd::prelude::*;

verus! {

/// State of the popup.
#[derive(Clone, Debug)]
pub struct TargetInputState {
    /// What was typed (ASCII only, so that the cursor counts characters and
    /// bytes alike).
    pub input: String,
    /// Cursor in the input.
    pub cursor: usize,
    /// Message of the last failed attempt.
    pub error: Option<String>,
    /// Whether a resolution is in flight.
    pub resolving: bool,
    /// Whether a reply is awaited.
    pub pending: bool,
}

/// Whether a character can be typed here.
pub open spec fn is_printable(c: char) -> bool {
    0x20 <= c as u32 <= 0x7E
}

/// What a key asks the program to do.
#[derive(Clone, Debug)]
pub enum InputAction {
    /// Nothing more.
    Keep,
    /// Resolve and add this host.
    Submit(String),
}

impl Default for TargetInputState {
    fn default() -> (r: TargetInputState)
        ensures
            r.wf(),
            r.input@.len() == 0,
            r.cursor == 0,
            r.error is None,
            !r.resolving,
            !r.pending,
    {
        TargetInputState {
            input: String::new(),
            cursor: 0,
            error: None,
            resolving: false,
            pending: false,
        }
    }
}

impl TargetInputState {
    /// Whether the input is printable ASCII and the cursor inside it.
    pub open spec fn wf(self) -> bool {
        self.cursor <= self.input@.len() && forall|i: int|
            0 <= i < self.input@.len() ==> is_printable(#[trigger] self.input@[i])
    }

    /// The input and the place of the cursor in it.
    pub open spec fn editing(self) -> Edit {
        Edit { text: self.input@, at: self.cursor as int }
    }

    /// Whether all but the input and its cursor is the same.
    pub open spec fn same_but_input(self, other: TargetInputState) -> bool {
        opt_text(self.error) == opt_text(other.error) && self.resolving == other.resolving
            && self.pending == other.pending
    }

    /// Inserts a character at the cursor, if it is printable ASCII.
    pub fn handle_char(&mut self, c: char)
        requires
            old(self).wf(),
            old(self).input@.len() < usize::MAX,
        ensures
            final(self).wf(),
            final(self).editing() == (if is_printable(c) {
                old(self).editing().typed(c)
            } else {
                old(self).editing()
            }),
            final(self).same_but_input(*old(self)),
    {
        let code: u32 = c as u32;
        if 0x20 <= code && code <= 0x7E {
            let mut chars: Vec<char> = chars_of(self.input.as_str());
            chars.insert(self.cursor, c);
            self.input = string_of(&chars);
            self.cursor = self.cursor + 1;
        }
    }

    /// Deletes the character before the cursor.
    pub fn handle_backspace(&mut self)
        requires
            old(self).wf(),
        ensures
            final(self).wf(),
            final(self).editing() == old(self).editing().erased(),
            final(self).same_but_input(*old(self)),
    {
        if self.cursor > 0 {
            let mut chars: Vec<char> = chars_of(self.input.as_str());
            self.cursor = self.cursor - 1;
            chars.remove(self.cursor);
            self.input = string_of(&chars);
        }
    }

    /// Deletes the character at the cursor.
    pub fn handle_delete(&mut self)
        requires
            old(self).wf(),
        ensures
            final(self).wf(),
            final(self).editing() == old(self).editing().deleted(),
            final(self).same_but_input(*old(self)),
    {
        let mut chars: Vec<char> = chars_of(self.input.as_str());
        if self.cursor < chars.len() {
            chars.remove(self.cursor);
            self.input = string_of(&chars);
        }
    }

    /// Moves the cursor left.
    pub fn move_cursor_left(&mut self)
        requires
            old(self).wf(),
        ensures
            final(self).wf(),
            final(self).editing() == old(self).editing().left(),
            final(self).same_but_input(*old(self)),
    {
        if self.cursor > 0 {
            self.cursor = self.cursor - 1;
        }
    }

    /// Moves the cursor right.
    pub fn move_cursor_right(&mut self)
        requires
            old(self).wf(),
        ensures
            final(self).wf(),
            final(self).editing() == old(self).editing().right(),
            final(self).same_but_input(*old(self)),
    {
        if self.cursor < crate::text::char_count(self.input.as_str()) {
            self.cursor = self.cursor + 1;
        }
    }

    /// What the host that was typed is asked for, if the input can be
    /// submitted: not while a resolution is in flight, not if it is blank, not
    /// without someone to ask.
    pub open spec fn submission(self, manager: bool) -> Option<Seq<char>> {
        let host = trimmed(self.input@);
        if host.len() == 0 || self.resolving || !manager {
            None
        } else {
            Some(host)
        }
    }

    /// The host to ask for when the input is submitted, if it can be.
    pub fn submit(&self, manager: bool) -> (r: InputAction)
        ensures
            match self.submission(manager) {
                Some(host) => r matches InputAction::Submit(h) && h@ == host,
                None => r is Keep,
            },
    {
        let host: Vec<char> = trim(&chars_of(self.input.as_str()));
        if host.len() == 0 || self.resolving || !manager {
            InputAction::Keep
        } else {
            InputAction::Submit(string_of(&host))
        }
    }

    /// Notes that a host was asked for, or that nobody could be asked.
    pub fn submitted(&mut self, sent: bool)
        ensures
            final(self).input@ == old(self).input@,
            final(self).cursor == old(self).cursor,
            sent ==> final(self).pending && final(self).resolving && final(self).error is None,
            !sent ==> final(self).pending == old(self).pending && final(self).resolving == old(
                self).resolving && opt_text(final(self).error) == Some(
                "Target manager unavailable"@,
            ),
    {
        if sent {
            self.pending = true;
            self.resolving = true;
            self.error = None;
        } else {
            self.error = Some(copy_of("Target manager unavailable"));
        }
    }

    /// Notes that the request was refused.
    pub fn refused(&mut self, message: &str)
        ensures
            final(self).input@ == old(self).input@,
            final(self).cursor == old(self).cursor,
            !final(self).pending,
            !final(self).resolving,
            opt_text(final(self).error) == Some(message@),
    {
        self.pending = false;
        self.resolving = false;
        self.error = Some(copy_of(message));
    }

    /// Handles an editing key; other keys change nothing here. Characters
    /// typed with the control key are not input.
    pub fn handle_key(&mut self, key: Key, control: bool)
        requires
            old(self).wf(),
            old(self).input@.len() < usize::MAX,
        ensures
            final(self).wf(),
            final(self).editing() == (match key {
                Key::Backspace => old(self).editing().erased(),
                Key::Delete => old(self).editing().deleted(),
                Key::Left => old(self).editing().left(),
                Key::Right => old(self).editing().right(),
                Key::Char(c) => if !control && is_printable(c) {
                    old(self).editing().typed(c)
                } else {
                    old(self).editing()
                },
                _ => old(self).editing(),
            }),
            final(self).same_but_input(*old(self)),
    {
        match key {
            Key::Backspace => self.handle_backspace(),
            Key::Delete => self.handle_delete(),
            Key::Left => self.move_cursor_left(),
            Key::Right => self.move_cursor_right(),
            Key::Char(c) => {
                if !control {
                    self.handle_char(c);
                }
            },
            _ => {},
        }
    }
}

/// The popup for adding a target.
pub struct TargetInputView<'a> {
    pub state: &'a TargetInputState,
}

/// Where the popup stands, if there is room for it.
pub open spec fn input_area(area: Rect) -> Option<Rect> {
    let width = smaller(
        50,
        if area.width >= 4 {
            area.width - 4
        } else {
            0
        },
    );
    if width < 20 || area.height < 7 {
        None
    } else {
        Some(
            Rect {
                x: (area.x + (area.width - width) / 2) as u16,
                y: (area.y + (area.height - 7) / 2) as u16,
                width: width as u16,
                height: 7,
            },
        )
    }
}

/// The line of the input, with the cursor in it.
pub open spec fn input_line(e: Edit) -> Seq<SpanView> {
    seq![
        SpanView { text: "> "@, role: Role::Dim },
        SpanView { text: e.text.take(e.at), role: Role::Text },
        SpanView { text: "\u{2502}"@, role: Role::Cursor },
        SpanView { text: e.text.skip(e.at), role: Role::Text },
    ]
}

/// The line below the input: an error, else that a resolution is in flight,
/// else a hint.
pub open spec fn input_status(state: TargetInputState) -> Seq<SpanView> {
    match opt_text(state.error) {
        Some(message) => plain_line(message, Role::Error),
        None => if state.resolving {
            plain_line("Resolving..."@, Role::Warning)
        } else {
            plain_line("Hostname or IP address"@, Role::Dim)
        },
    }
}

/// The lines of the popup.
pub open spec fn input_lines(state: TargetInputState) -> Seq<Seq<SpanView>> {
    Seq::empty().push(no_text()).push(input_line(state.editing())).push(input_status(state)).push(
        no_text(),
    ).push(plain_line("Enter add \u{00b7} Esc cancel"@, Role::Dim))
}

impl<'a> TargetInputView<'a> {
    /// The popup for a state.
    pub fn new(state: &'a TargetInputState) -> (r: TargetInputView<'a>)
        ensures
            *r.state == *state,
    {
        TargetInputView { state }
    }

    /// Where the popup stands, if there is room for it.
    pub fn area(&self, screen: Rect) -> (r: Option<Rect>)
        requires
            screen.fits(),
        ensures
            r == input_area(screen),
    {
        let most: u16 = screen.width.saturating_sub(4);
        let width: u16 = if most < 50 {
            most
        } else {
            50
        };
        if width < 20 || screen.height < 7 {
            return None;
        }
        Some(
            Rect {
                x: screen.x + (screen.width - width) / 2,
                y: screen.y + (screen.height - 7) / 2,
                width,
                height: 7,
            },
        )
    }

    /// The lines of the popup.
    pub fn lines(&self) -> (r: Vec<Line>)
        requires
            self.state.wf(),
        ensures
            line_views(r@) == input_lines(*self.state),
    {
        let state: &TargetInputState = self.state;
        let chars: Vec<char> = chars_of(state.input.as_str());
        let before: String = string_of(&crate::fields::part(&chars, 0, state.cursor));
        let after: String = string_of(&crate::fields::part(&chars, state.cursor, chars.len()));
        let mut lines: Vec<Line> = Vec::new();
        assert(line_views(lines@) =~= Seq::empty());
        add_blank(&mut lines);
        let ghost top = line_views(lines@);
        let mut spans: Vec<Span> = Vec::new();
        spans.push(Span { text: copy_of("> "), role: Role::Dim });
        spans.push(Span { text: before, role: Role::Text });
        spans.push(Span { text: copy_of("\u{2502}"), role: Role::Cursor });
        spans.push(Span { text: after, role: Role::Text });
        let line = Line { spans };
        let ghost view = line@;
        proof {
            let e = state.editing();
            assert(before@ =~= e.text.take(e.at));
            assert(after@ =~= e.text.skip(e.at));
            assert(view =~= input_line(e));
        }
        lines.push(line);
        assert(line_views(lines@) =~= top.push(view));
        match &state.error {
            Some(message) => add_line(&mut lines, message.as_str(), Role::Error),
            None => {
                if state.resolving {
                    add_line(&mut lines, "Resolving...", Role::Warning);
                } else {
                    add_line(&mut lines, "Hostname or IP address", Role::Dim);
                }
            },
        }
        add_blank(&mut lines);
        add_line(&mut lines, "Enter add \u{00b7} Esc cancel", Role::Dim);
        lines
    }
}

} // verus!
