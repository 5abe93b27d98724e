//! Update notification: whether to check, and what to say.

use crate::fields::{trim, trimmed};
use crate::text::{
    byte_len, chars_of, contains_text, copy_of, left_aligned, occurs, push_left_aligned,
    push_repeated, push_text, repeated, same_text, string_of, text_bytes,
};
use vstd::prelude::*;

verus! {

/// Whether update checking is part of this build.
pub const ENABLED: bool = true;

/// Whether the value of an environment variable counts as set: anything but
/// empty, `0` and `false`.
pub open spec fn truthy(v: Seq<char>) -> bool {
    let t = trimmed(v);
    t != ""@ && t != "0"@ && t != "false"@
}

/// Whether the value of an environment variable counts as an opt-out. It does
/// unless it is explicitly falsey.
pub fn flag_is_truthy(v: &str) -> (r: bool)
    ensures
        r == truthy(v@),
{
    let t: String = string_of(&trim(&chars_of(v)));
    !same_text(t.as_str(), "") && !same_text(t.as_str(), "0") && !same_text(t.as_str(), "false")
}

/// Whether any of the given environment variables opts out.
pub fn env_opt_out(do_not_track: &Option<String>, no_update_check: &Option<String>) -> (r: bool)
    ensures
        r == ((*do_not_track matches Some(a) && truthy(a@)) || (*no_update_check matches Some(b)
            && truthy(b@))),
{
    let first: bool = match do_not_track {
        Some(v) => flag_is_truthy(v.as_str()),
        None => false,
    };
    let second: bool = match no_update_check {
        Some(v) => flag_is_truthy(v.as_str()),
        None => false,
    };
    first || second
}

/// Whether the background update check is skipped: an opt-out by environment
/// or command line wins, else the saved preference counts (unset means that
/// the check is on).
pub fn check_disabled(env_opt_out: bool, cli_flag: bool, pref: Option<bool>) -> (r: bool)
    ensures
        r == (!ENABLED || env_opt_out || cli_flag || pref == Some(true)),
{
    !ENABLED || env_opt_out || cli_flag || match pref {
        Some(p) => p,
        None => false,
    }
}

/// How the program was installed.
#[derive(Debug, Clone, Copy, PartialEq, Eq, Structural)]
pub enum InstallMethod {
    Homebrew,
    Cargo,
    /// A released binary, or unknown.
    Binary,
}

/// The install method that the path of the executable suggests.
pub open spec fn method_of(path: Option<Seq<char>>) -> InstallMethod {
    match path {
        None => InstallMethod::Binary,
        Some(p) => if occurs("homebrew"@, p) || occurs("Cellar"@, p) {
            InstallMethod::Homebrew
        } else if occurs(".cargo/bin"@, p) {
            InstallMethod::Cargo
        } else {
            InstallMethod::Binary
        },
    }
}

impl InstallMethod {
    /// Detects the install method from the path of the executable, if known.
    pub fn detect(exe_path: &Option<String>) -> (r: InstallMethod)
        ensures
            r == method_of(crate::text::opt_text(*exe_path)),
    {
        match exe_path {
            None => InstallMethod::Binary,
            Some(p) => if contains_text(p.as_str(), "homebrew") || contains_text(
                p.as_str(),
                "Cellar",
            ) {
                InstallMethod::Homebrew
            } else if contains_text(p.as_str(), ".cargo/bin") {
                InstallMethod::Cargo
            } else {
                InstallMethod::Binary
            },
        }
    }

    /// What to do to update.
    pub open spec fn command(self) -> Seq<char> {
        match self {
            InstallMethod::Homebrew => "brew upgrade ttl"@,
            InstallMethod::Cargo => "cargo install ttl"@,
            InstallMethod::Binary => "github.com/lance0/ttl/releases"@,
        }
    }

    /// The update command for this install method.
    pub fn update_command(&self) -> (r: &'static str)
        ensures
            r@ == self.command(),
    {
        match self {
            InstallMethod::Homebrew => "brew upgrade ttl",
            InstallMethod::Cargo => "cargo install ttl",
            InstallMethod::Binary => "github.com/lance0/ttl/releases",
        }
    }

    /// The install method found earlier, or else the one that the path
    /// suggests, which is then remembered.
    pub fn cached(found: &mut Option<InstallMethod>, exe_path: &Option<String>) -> (r:
        InstallMethod)
        ensures
            r == (match *old(found) {
                Some(m) => m,
                None => method_of(crate::text::opt_text(*exe_path)),
            }),
            *final(found) == Some(r),
    {
        match *found {
            Some(m) => m,
            None => {
                let m: InstallMethod = InstallMethod::detect(exe_path);
                *found = Some(m);
                m
            },
        }
    }
}

/// The line that says what can be had.
pub open spec fn version_line(current: Seq<char>, new_version: Seq<char>) -> Seq<char> {
    "Update available: "@ + current + " -> "@ + new_version
}

/// The line that says what to do.
pub open spec fn command_line(method: InstallMethod) -> Seq<char> {
    "Run: "@ + method.command()
}

/// The inner width of the box: the longer line, in bytes, and four more.
pub open spec fn notice_width(
    current: Seq<char>,
    new_version: Seq<char>,
    method: InstallMethod,
) -> nat {
    let a = text_bytes(version_line(current, new_version));
    let b = text_bytes(command_line(method));
    (if a >= b {
        a
    } else {
        b
    }) + 4
}

/// The top or bottom of the box.
pub open spec fn box_edge(width: nat) -> Seq<char> {
    "\x1b[33m+"@ + repeated('-', width) + "+\x1b[0m\n"@
}

/// A line in the box.
pub open spec fn box_line(text: Seq<char>, width: nat) -> Seq<char> {
    "\x1b[33m|\x1b[0m  "@ + left_aligned(text, (width - 2) as nat) + "\x1b[33m|\x1b[0m\n"@
}

/// The notice, in a box.
pub open spec fn notice(
    current: Seq<char>,
    new_version: Seq<char>,
    method: InstallMethod,
) -> Seq<char> {
    let width = notice_width(current, new_version, method);
    "\n"@ + box_edge(width) + box_line(version_line(current, new_version), width) + box_line(
        command_line(method),
        width,
    ) + box_edge(width)
}

fn box_edge_text(width: usize) -> (r: String)
    ensures
        r@ == box_edge(width as nat),
{
    let mut out: String = copy_of("\x1b[33m+");
    push_repeated(&mut out, '-', width);
    push_text(&mut out, "+\x1b[0m\n");
    out
}

fn box_line_text(text: &str, width: usize) -> (r: String)
    requires
        width >= 2,
    ensures
        r@ == box_line(text@, width as nat),
{
    let mut out: String = copy_of("\x1b[33m|\x1b[0m  ");
    push_left_aligned(&mut out, text, width - 2);
    push_text(&mut out, "\x1b[33m|\x1b[0m\n");
    out
}

/// The notice that a newer version can be had.
pub fn update_notice(current: &str, new_version: &str, method: InstallMethod) -> (r: String)
    requires
        notice_width(current@, new_version@, method) <= usize::MAX,
    ensures
        r@ == notice(current@, new_version@, method),
{
    let mut first: String = copy_of("Update available: ");
    push_text(&mut first, current);
    push_text(&mut first, " -> ");
    push_text(&mut first, new_version);
    let mut second: String = copy_of("Run: ");
    push_text(&mut second, method.update_command());
    let a: usize = byte_len(first.as_str());
    let b: usize = byte_len(second.as_str());
    let width: usize = if a >= b {
        a + 4
    } else {
        b + 4
    };
    let edge: String = box_edge_text(width);
    let top: String = box_line_text(first.as_str(), width);
    let bottom: String = box_line_text(second.as_str(), width);
    let mut out: String = copy_of("\n");
    push_text(&mut out, edge.as_str());
    push_text(&mut out, top.as_str());
    push_text(&mut out, bottom.as_str());
    push_text(&mut out, edge.as_str());
    out
}

/// Nobody is asked about updates who has said no: in the environment, on the
/// command line or in the preferences.
pub proof fn law_no_means_no(
    track: &Option<String>,
    check: &Option<String>,
    env: bool,
    flag: bool,
    pref: Option<bool>,
    disabled: bool,
)
    requires
        call_ensures(env_opt_out, (track, check), env),
        call_ensures(check_disabled, (env, flag, pref), disabled),
    ensures
        disabled <==> env || flag || pref == Some(true),
        *track is None && *check is None ==> !env,
        (track matches Some(v) && v@ == "1"@) ==> env,
        (check matches Some(v) && v@ == "1"@) ==> env,
        (track matches Some(v) && v@ == "0"@) && *check is None ==> !env,
{
    reveal_strlit("1");
    reveal_strlit("0");
    reveal_strlit("");
    reveal_strlit("false");
    assert(trimmed("1"@) == "1"@);
    assert(trimmed("0"@) == "0"@);
    assert("1"@[0] != "0"@[0]);
}

/// How to update depends on how the program came here, and once that is known
/// it stays.
pub proof fn law_update_as_installed(
    found: &mut Option<InstallMethod>,
    path: &Option<String>,
    r: InstallMethod,
    detected: InstallMethod,
    command: &'static str,
)
    requires
        call_ensures(InstallMethod::cached, (found, path), r),
        call_ensures(InstallMethod::detect, (path,), detected),
        call_ensures(InstallMethod::update_command, (&r,), command),
    ensures
        *old(found) matches Some(known) ==> r == known,
        *old(found) is None ==> r == detected,
        *final(found) == Some(r),
        *path is None ==> (detected is Binary),
        (r is Homebrew) ==> command@ == "brew upgrade ttl"@,
        (r is Cargo) ==> command@ == "cargo install ttl"@,
{
}

/// Words that mean no are no, whatever stands around them; anything else that
/// is written is yes.
pub proof fn law_flag_says_no(v: &str, r: bool)
    requires
        call_ensures(flag_is_truthy, (v,), r),
    ensures
        r <==> !(trimmed(v@) == ""@ || trimmed(v@) == "0"@ || trimmed(v@) == "false"@),
{
}

} // verus!
