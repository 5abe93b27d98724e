//! Lines of styled text and the place of a popup.

use crate::text::copy_of;
use vstd::prelude::*;

verus! {

/// How a piece of text is shown; the theme gives each its colour.
#[derive(Clone, Copy, Debug, PartialEq, Eq, Structural)]
pub enum Role {
    /// As the terminal has it.
    Plain,
    Text,
    Dim,
    Header,
    /// A header, bold.
    ActiveHeader,
    Shortcut,
    /// A shortcut, bold.
    ActiveShortcut,
    /// A shortcut, blinking.
    Cursor,
    Error,
    Warning,
}

/// A piece of text in one style.
#[derive(Clone, Debug)]
pub struct Span {
    pub text: String,
    pub role: Role,
}

/// A piece of text by its value.
pub struct SpanView {
    pub text: Seq<char>,
    pub role: Role,
}

impl View for Span {
    type V = SpanView;

    open spec fn view(&self) -> SpanView {
        SpanView { text: self.text@, role: self.role }
    }
}

/// A line of pieces.
#[derive(Clone, Debug)]
pub struct Line {
    pub spans: Vec<Span>,
}

impl View for Line {
    type V = Seq<SpanView>;

    open spec fn view(&self) -> Seq<SpanView> {
        Seq::new(self.spans@.len(), |i: int| self.spans@[i]@)
    }
}

/// Lines by their values.
pub open spec fn line_views(lines: Seq<Line>) -> Seq<Seq<SpanView>> {
    Seq::new(lines.len(), |i: int| lines[i]@)
}

/// An empty line.
pub open spec fn no_text() -> Seq<SpanView> {
    Seq::empty()
}

/// A line in one style.
pub open spec fn plain_line(text: Seq<char>, role: Role) -> Seq<SpanView> {
    seq![SpanView { text, role }]
}

/// A line in two styles.
pub open spec fn two_part_line(a: Seq<char>, ra: Role, b: Seq<char>, rb: Role) -> Seq<SpanView> {
    seq![SpanView { text: a, role: ra }, SpanView { text: b, role: rb }]
}

/// Appends an empty line.
pub fn add_blank(lines: &mut Vec<Line>)
    ensures
        line_views(final(lines)@) == line_views(old(lines)@).push(no_text()),
{
    let ghost before = line_views(lines@);
    let line = Line { spans: Vec::new() };
    let ghost view = line@;
    lines.push(line);
    assert(view =~= no_text());
    assert(line_views(lines@) =~= before.push(view));
}

/// Appends a line in one style.
pub fn add_line(lines: &mut Vec<Line>, text: &str, role: Role)
    ensures
        line_views(final(lines)@) == line_views(old(lines)@).push(plain_line(text@, role)),
{
    let ghost before = line_views(lines@);
    let mut spans: Vec<Span> = Vec::new();
    spans.push(Span { text: copy_of(text), role });
    let line = Line { spans };
    let ghost view = line@;
    lines.push(line);
    assert(view =~= plain_line(text@, role));
    assert(line_views(lines@) =~= before.push(view));
}

/// Appends a line in two styles.
pub fn add_two_part(lines: &mut Vec<Line>, a: &str, ra: Role, b: &str, rb: Role)
    ensures
        line_views(final(lines)@) == line_views(old(lines)@).push(two_part_line(a@, ra, b@, rb)),
{
    let ghost before = line_views(lines@);
    let mut spans: Vec<Span> = Vec::new();
    spans.push(Span { text: copy_of(a), role: ra });
    spans.push(Span { text: copy_of(b), role: rb });
    let line = Line { spans };
    let ghost view = line@;
    lines.push(line);
    assert(view =~= two_part_line(a@, ra, b@, rb));
    assert(line_views(lines@) =~= before.push(view));
}

/// A rectangle of the screen.
#[derive(Clone, Copy, Debug, PartialEq, Eq, Structural)]
pub struct Rect {
    pub x: u16,
    pub y: u16,
    pub width: u16,
    pub height: u16,
}

impl Rect {
    /// Whether the far corner has coordinates.
    pub open spec fn fits(self) -> bool {
        self.x + self.width <= u16::MAX && self.y + self.height <= u16::MAX
    }
}

/// The smaller of two numbers.
pub open spec fn smaller(a: int, b: int) -> int {
    if a <= b {
        a
    } else {
        b
    }
}

/// What is left of a number after four, at least zero.
pub open spec fn less_margin(n: u16) -> int {
    if n >= 4 {
        n - 4
    } else {
        0
    }
}

/// A popup in the middle of an area: as large as wanted, but with a margin of
/// two cells on each side.
pub open spec fn popup_spec(area: Rect, width: int, height: int) -> Rect {
    let w = smaller(width, less_margin(area.width));
    let h = smaller(height, less_margin(area.height));
    Rect {
        x: ((area.width - w) / 2 + area.x) as u16,
        y: ((area.height - h) / 2 + area.y) as u16,
        width: w as u16,
        height: h as u16,
    }
}

/// Places a popup in the middle of an area.
pub fn popup(area: Rect, width: u16, height: usize) -> (r: Rect)
    requires
        area.fits(),
    ensures
        r == popup_spec(area, width as int, height as int),
{
    let most_w: u16 = area.width.saturating_sub(4);
    let most_h: u16 = area.height.saturating_sub(4);
    let w: u16 = if width <= most_w {
        width
    } else {
        most_w
    };
    let h: u16 = if height <= most_h as usize {
        height as u16
    } else {
        most_h
    };
    Rect { x: (area.width - w) / 2 + area.x, y: (area.height - h) / 2 + area.y, width: w, height: h }
}

/// A popup lies inside its area, with the margins on both sides differing by
/// at most one cell.
pub proof fn law_popup_is_centred(area: Rect, width: int, height: int)
    requires
        area.fits(),
        width >= 0,
        height >= 0,
    ensures
        ({
            let p = popup_spec(area, width, height);
            let left = p.x - area.x;
            let right = area.x + area.width - (p.x + p.width);
            let top = p.y - area.y;
            let bottom = area.y + area.height - (p.y + p.height);
            &&& 0 <= left <= right <= left + 1
            &&& 0 <= top <= bottom <= top + 1
        }),
{
}

} // verus!
