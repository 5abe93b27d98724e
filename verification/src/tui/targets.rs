//! The list of targets.

use crate::session::{find_session, session_of, Address, Session};
use crate::text::{
    char_count, chars_of, copy_of, decimal, decimal_string, left_aligned, push_decimal,
    push_left_aligned, push_right_aligned, push_text, right_aligned, string_of,
};
use crate::tui::line::{
    add_blank, add_line, line_views, no_text, plain_line, popup, popup_spec, Line, Rect, Role,
    SpanView,
};
use vstd::prelude::*;

verus! {

/// What the list shows of a target.
#[derive(Clone, Debug)]
pub struct TargetInfo {
    pub ip: String,
    pub hostname: String,
    pub hops_str: String,
    pub loss_str: String,
}

/// What the list shows of a target, by its values.
pub struct InfoView {
    pub ip: Seq<char>,
    pub hostname: Seq<char>,
    pub hops_str: Seq<char>,
    pub loss_str: Seq<char>,
}

impl View for TargetInfo {
    type V = InfoView;

    open spec fn view(&self) -> InfoView {
        InfoView {
            ip: self.ip@,
            hostname: self.hostname@,
            hops_str: self.hops_str@,
            loss_str: self.loss_str@,
        }
    }
}

/// The host name of a target: what the user wrote, unless that is an address;
/// then the name that a reverse lookup gave, if any.
pub open spec fn host_of(session: Session) -> Seq<char> {
    if session.target.display_is_address {
        match session.target.hostname {
            Some(name) => name@,
            None => ""@,
        }
    } else {
        session.target.display@
    }
}

/// The distance of a target.
pub open spec fn hops_of(session: Session) -> Seq<char> {
    match session.dest_ttl {
        Some(ttl) => decimal(ttl as nat) + " hops"@,
        None => "--"@,
    }
}

/// The loss at a target.
pub open spec fn loss_of(session: Session) -> Seq<char> {
    match session.dest_ttl {
        Some(ttl) => if 1 <= ttl <= session.hops@.len() {
            session.hops@[ttl - 1].loss@ + "%"@
        } else {
            "--"@
        },
        None => "--"@,
    }
}

/// What the list shows of an address.
pub open spec fn info_of(ip: Seq<char>, session: Option<Session>) -> InfoView {
    match session {
        Some(s) => InfoView { ip, hostname: host_of(s), hops_str: hops_of(s), loss_str: loss_of(s) },
        None => InfoView { ip, hostname: ""@, hops_str: "--"@, loss_str: "--"@ },
    }
}

/// What the list shows of an address.
fn target_info(ip: &str, session: Option<&Session>) -> (r: TargetInfo)
    ensures
        r@ == info_of(
            ip@,
            match session {
                Some(s) => Some(*s),
                None => None,
            },
        ),
{
    match session {
        Some(s) => {
            let hostname: String = if s.target.display_is_address {
                match &s.target.hostname {
                    Some(name) => copy_of(name.as_str()),
                    None => copy_of(""),
                }
            } else {
                copy_of(s.target.display.as_str())
            };
            let hops: String = match s.dest_ttl {
                Some(ttl) => {
                    let mut out: String = decimal_string(ttl as u64);
                    push_text(&mut out, " hops");
                    out
                },
                None => copy_of("--"),
            };
            let loss: String = match s.dest_ttl {
                Some(ttl) => if 1 <= ttl && ttl as usize <= s.hops.len() {
                    let mut out: String = copy_of(s.hops[ttl as usize - 1].loss.as_str());
                    push_text(&mut out, "%");
                    out
                } else {
                    copy_of("--")
                },
                None => copy_of("--"),
            };
            TargetInfo { ip: copy_of(ip), hostname, hops_str: hops, loss_str: loss }
        },
        None => TargetInfo {
            ip: copy_of(ip),
            hostname: copy_of(""),
            hops_str: copy_of("--"),
            loss_str: copy_of("--"),
        },
    }
}

/// What the list shows of each target.
pub fn extract_target_infos(sessions: &Vec<Session>, targets: &Vec<Address>) -> (r: Vec<TargetInfo>)
    ensures
        r@.len() == targets@.len(),
        forall|i: int|
            0 <= i < r@.len() ==> (#[trigger] r@[i])@ == info_of(
                targets@[i].text@,
                session_of(sessions@, targets@[i].ip),
            ),
{
    let mut out: Vec<TargetInfo> = Vec::new();
    let mut i: usize = 0;
    while i < targets.len()
        invariant
            i <= targets.len(),
            out@.len() == i,
            forall|j: int|
                0 <= j < i ==> (#[trigger] out@[j])@ == info_of(
                    targets@[j].text@,
                    session_of(sessions@, targets@[j].ip),
                ),
        decreases targets.len() - i,
    {
        let info: TargetInfo = target_info(
            targets[i].text.as_str(),
            find_session(sessions, targets[i].ip),
        );
        out.push(info);
        i = i + 1;
    }
    out
}

/// The list of targets.
pub struct TargetListView<'a> {
    pub target_infos: &'a Vec<TargetInfo>,
    pub selected_index: usize,
}

/// A host name cut to fit its column, by characters.
pub open spec fn fitted(name: Seq<char>) -> Seq<char> {
    if name.len() > 18 {
        name.take(15) + "..."@
    } else {
        name
    }
}

/// The line of a target.
pub open spec fn target_line(i: nat, selected: bool, info: InfoView) -> Seq<SpanView> {
    plain_line(
        "  "@ + (if selected {
            ">"@
        } else {
            " "@
        }) + " "@ + right_aligned(decimal(i + 1), 2) + ". "@ + left_aligned(info.ip, 17) + " "@
            + left_aligned(fitted(info.hostname), 18) + " "@ + left_aligned(info.hops_str, 8) + " "@
            + right_aligned(info.loss_str, 5),
        if selected {
            Role::ActiveShortcut
        } else {
            Role::Text
        },
    )
}

/// Lines, and after them those of the first `n` targets.
pub open spec fn with_targets(
    lines: Seq<Seq<SpanView>>,
    infos: Seq<TargetInfo>,
    selected: usize,
    n: nat,
) -> Seq<Seq<SpanView>>
    decreases n,
{
    if n == 0 {
        lines
    } else {
        with_targets(lines, infos, selected, (n - 1) as nat).push(
            target_line((n - 1) as nat, n - 1 == selected, infos[n - 1]@),
        )
    }
}

/// All lines of the list.
pub open spec fn target_lines(infos: Seq<TargetInfo>, selected: usize) -> Seq<Seq<SpanView>> {
    let top = Seq::empty().push(no_text()).push(
        plain_line("  Resolved "@ + decimal(infos.len()) + " addresses:"@, Role::Header),
    ).push(no_text());
    with_targets(top, infos, selected, infos.len()).push(no_text()).push(
        plain_line("  Up/Down navigate   Enter select   1-9 jump"@, Role::Dim),
    ).push(plain_line("  Esc close"@, Role::Dim))
}

/// A host name cut to fit its column.
fn fit(name: &str) -> (r: String)
    ensures
        r@ == fitted(name@),
{
    if char_count(name) > 18 {
        let chars: Vec<char> = chars_of(name);
        let head: Vec<char> = crate::fields::part(&chars, 0, 15);
        assert(head@ =~= name@.take(15));
        let mut out: String = string_of(&head);
        push_text(&mut out, "...");
        out
    } else {
        copy_of(name)
    }
}

impl<'a> TargetListView<'a> {
    /// The list with a selection.
    pub fn new(target_infos: &'a Vec<TargetInfo>, selected_index: usize) -> (r: TargetListView<'a>)
        ensures
            r.target_infos@ == target_infos@,
            r.selected_index == selected_index,
    {
        TargetListView { target_infos, selected_index }
    }

    /// Where the list stands; it grows with the targets.
    pub fn area(&self, screen: Rect) -> (r: Rect)
        requires
            screen.fits(),
            self.target_infos@.len() + 8 <= usize::MAX,
        ensures
            r == popup_spec(screen, 65, self.target_infos@.len() as int + 8),
    {
        popup(screen, 65, self.target_infos.len() + 8)
    }

    /// The lines of the list.
    pub fn lines(&self) -> (r: Vec<Line>)
        ensures
            line_views(r@) == target_lines(self.target_infos@, self.selected_index),
    {
        let infos: &Vec<TargetInfo> = self.target_infos;
        let selected: usize = self.selected_index;
        let mut lines: Vec<Line> = Vec::new();
        assert(line_views(lines@) =~= Seq::empty());
        add_blank(&mut lines);
        let mut head: String = copy_of("  Resolved ");
        push_decimal(&mut head, infos.len() as u64);
        push_text(&mut head, " addresses:");
        add_line(&mut lines, head.as_str(), Role::Header);
        add_blank(&mut lines);
        let ghost top = line_views(lines@);
        let mut i: usize = 0;
        while i < infos.len()
            invariant
                i <= infos.len(),
                line_views(lines@) == with_targets(top, infos@, selected, i as nat),
            decreases infos.len() - i,
        {
            let info: &TargetInfo = &infos[i];
            let here: bool = i == selected;
            let number: String = decimal_string(i as u64 + 1);
            let name: String = fit(info.hostname.as_str());
            let mut text: String = copy_of("  ");
            push_text(
                &mut text,
                if here {
                    ">"
                } else {
                    " "
                },
            );
            push_text(&mut text, " ");
            push_right_aligned(&mut text, number.as_str(), 2);
            push_text(&mut text, ". ");
            push_left_aligned(&mut text, info.ip.as_str(), 17);
            push_text(&mut text, " ");
            push_left_aligned(&mut text, name.as_str(), 18);
            push_text(&mut text, " ");
            push_left_aligned(&mut text, info.hops_str.as_str(), 8);
            push_text(&mut text, " ");
            push_right_aligned(&mut text, info.loss_str.as_str(), 5);
            add_line(
                &mut lines,
                text.as_str(),
                if here {
                    Role::ActiveShortcut
                } else {
                    Role::Text
                },
            );
            i = i + 1;
        }
        add_blank(&mut lines);
        add_line(&mut lines, "  Up/Down navigate   Enter select   1-9 jump", Role::Dim);
        add_line(&mut lines, "  Esc close", Role::Dim);
        lines
    }
}

} // verus!
