//! The help overlay.

use crate::text::{copy_of, push_text};
use crate::tui::line::{
    add_blank, add_line, add_two_part, line_views, no_text, plain_line, popup, popup_spec,
    two_part_line, Line, Rect, Role, SpanView,
};
use vstd::prelude::*;

verus! {

/// The help overlay.
#[derive(Clone, Copy, Debug, PartialEq, Eq, Structural)]
pub struct HelpView {
    pub is_replay: bool,
}

/// Lines, and after them one that explains a key.
pub open spec fn with_key(
    lines: Seq<Seq<SpanView>>,
    key: Seq<char>,
    meaning: Seq<char>,
) -> Seq<Seq<SpanView>> {
    lines.push(two_part_line(key, Role::Shortcut, meaning, Role::Plain))
}

fn add_key(lines: &mut Vec<Line>, key: &str, meaning: &str)
    ensures
        line_views(final(lines)@) == with_key(line_views(old(lines)@), key@, meaning@),
{
    add_two_part(lines, key, Role::Shortcut, meaning, Role::Plain);
}

/// The lines that explain the keys of every mode.
pub open spec fn key_lines() -> Seq<Seq<SpanView>> {
    let l = Seq::empty().push(no_text());
    let l = with_key(l, "  q       "@, "Quit"@);
    let l = with_key(l, "  p/Space "@, "Pause/Resume"@);
    let l = with_key(l, "  r       "@, "Reset statistics"@);
    let l = with_key(l, "  t       "@, "Cycle theme"@);
    let l = with_key(l, "  w       "@, "Cycle display mode"@);
    let l = with_key(l, "  s       "@, "Settings"@);
    let l = with_key(l, "  e       "@, "Export to JSON"@);
    let l = with_key(l, "  ?/h     "@, "Show this help"@);
    let l = with_key(l, "  u       "@, "Dismiss update banner"@);
    let l = l.push(no_text());
    let l = with_key(l, "  o       "@, "Add target"@);
    let l = with_key(l, "  Tab/n   "@, "Next target (multi-target)"@);
    let l = with_key(l, "  S-Tab/N "@, "Previous target"@);
    let l = with_key(l, "  l       "@, "Target list"@);
    let l = with_key(l, "  Up/k    "@, "Move selection up"@);
    let l = with_key(l, "  Down/j  "@, "Move selection down"@);
    let l = with_key(l, "  Enter   "@, "Expand selected hop"@);
    let l = with_key(l, "  Esc     "@, "Close popup / Deselect"@);
    l.push(no_text())
}

/// Lines, and after them the controls of a replay.
pub open spec fn with_replay_keys(lines: Seq<Seq<SpanView>>) -> Seq<Seq<SpanView>> {
    let a = lines.push(plain_line("  Replay Controls:"@, Role::Header));
    let b = with_key(a, "  Left/Right "@, "Seek 0.5s"@);
    let c = with_key(b, "  [ / ]      "@, "Seek 5s"@);
    let d = with_key(c, "  + / -      "@, "Speed up / slow down"@);
    let e = with_key(d, "  Home / End "@, "Seek to start / end"@);
    e.push(no_text())
}

/// All lines of the overlay.
pub open spec fn help_lines(is_replay: bool, update_command: Seq<char>) -> Seq<Seq<SpanView>> {
    let keys = key_lines();
    let all = if is_replay {
        with_replay_keys(keys)
    } else {
        keys
    };
    all.push(plain_line("  Update: "@ + update_command, Role::Dim)).push(
        plain_line("  Press any key to close"@, Role::Dim),
    )
}

impl HelpView {
    /// The overlay of a live trace.
    pub fn new() -> (r: HelpView)
        ensures
            !r.is_replay,
    {
        HelpView { is_replay: false }
    }

    /// The overlay with or without the controls of a replay.
    pub fn with_replay(self, is_replay: bool) -> (r: HelpView)
        ensures
            r.is_replay == is_replay,
    {
        HelpView { is_replay }
    }

    /// The title of the overlay.
    pub fn title(&self, version: &str) -> (r: String)
        ensures
            r@ == " Help \u{2014} ttl "@ + version@ + " "@,
    {
        let mut out: String = copy_of(" Help \u{2014} ttl ");
        push_text(&mut out, version);
        push_text(&mut out, " ");
        out
    }

    /// Where the overlay stands; it is taller in a replay.
    pub fn area(&self, screen: Rect) -> (r: Rect)
        requires
            screen.fits(),
        ensures
            r == popup_spec(
                screen,
                50,
                if self.is_replay {
                    31
                } else {
                    24
                },
            ),
    {
        popup(
            screen,
            50,
            if self.is_replay {
                31
            } else {
                24
            },
        )
    }

    /// The lines of the overlay.
    pub fn lines(&self, update_command: &str) -> (r: Vec<Line>)
        ensures
            line_views(r@) == help_lines(self.is_replay, update_command@),
    {
        let mut lines: Vec<Line> = Vec::new();
        assert(line_views(lines@) =~= Seq::empty());
        add_blank(&mut lines);
        add_key(&mut lines, "  q       ", "Quit");
        add_key(&mut lines, "  p/Space ", "Pause/Resume");
        add_key(&mut lines, "  r       ", "Reset statistics");
        add_key(&mut lines, "  t       ", "Cycle theme");
        add_key(&mut lines, "  w       ", "Cycle display mode");
        add_key(&mut lines, "  s       ", "Settings");
        add_key(&mut lines, "  e       ", "Export to JSON");
        add_key(&mut lines, "  ?/h     ", "Show this help");
        add_key(&mut lines, "  u       ", "Dismiss update banner");
        add_blank(&mut lines);
        add_key(&mut lines, "  o       ", "Add target");
        add_key(&mut lines, "  Tab/n   ", "Next target (multi-target)");
        add_key(&mut lines, "  S-Tab/N ", "Previous target");
        add_key(&mut lines, "  l       ", "Target list");
        add_key(&mut lines, "  Up/k    ", "Move selection up");
        add_key(&mut lines, "  Down/j  ", "Move selection down");
        add_key(&mut lines, "  Enter   ", "Expand selected hop");
        add_key(&mut lines, "  Esc     ", "Close popup / Deselect");
        add_blank(&mut lines);
        if self.is_replay {
            add_line(&mut lines, "  Replay Controls:", Role::Header);
            add_key(&mut lines, "  Left/Right ", "Seek 0.5s");
            add_key(&mut lines, "  [ / ]      ", "Seek 5s");
            add_key(&mut lines, "  + / -      ", "Speed up / slow down");
            add_key(&mut lines, "  Home / End ", "Seek to start / end");
            add_blank(&mut lines);
        }
        let mut update: String = copy_of("  Update: ");
        push_text(&mut update, update_command);
        add_line(&mut lines, update.as_str(), Role::Dim);
        add_line(&mut lines, "  Press any key to close", Role::Dim);
        lines
    }
}

} // verus!
