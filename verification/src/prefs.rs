//! User preferences.

use crate::text::{copy_of, opt_text};
use vstd::prelude::*;

verus! {

/// Display mode for column widths.
#[derive(Debug, Clone, Copy, PartialEq, Eq, Structural)]
pub enum DisplayMode {
    /// Auto-fit columns to content.
    Auto,
    /// Minimal column widths.
    Compact,
    /// Generous column widths.
    Wide,
}

impl Default for DisplayMode {
    fn default() -> (r: DisplayMode)
        ensures
            r == DisplayMode::Auto,
    {
        DisplayMode::Auto
    }
}

impl DisplayMode {
    /// The mode after this one.
    pub open spec fn successor(self) -> DisplayMode {
        match self {
            DisplayMode::Auto => DisplayMode::Compact,
            DisplayMode::Compact => DisplayMode::Wide,
            DisplayMode::Wide => DisplayMode::Auto,
        }
    }

    /// The name of the mode.
    pub open spec fn name(self) -> Seq<char> {
        match self {
            DisplayMode::Auto => "auto"@,
            DisplayMode::Compact => "compact"@,
            DisplayMode::Wide => "wide"@,
        }
    }

    /// Cycles to the next display mode.
    pub fn next(self) -> (r: DisplayMode)
        ensures
            r == self.successor(),
    {
        match self {
            DisplayMode::Auto => DisplayMode::Compact,
            DisplayMode::Compact => DisplayMode::Wide,
            DisplayMode::Wide => DisplayMode::Auto,
        }
    }

    /// The label for this mode.
    pub fn label(&self) -> (r: &'static str)
        ensures
            r@ == self.name(),
    {
        match self {
            DisplayMode::Auto => "auto",
            DisplayMode::Compact => "compact",
            DisplayMode::Wide => "wide",
        }
    }
}

/// Cycling comes back to every mode after three steps, and not before.
pub proof fn law_modes_cycle(mode: DisplayMode)
    ensures
        mode.successor() != mode,
        mode.successor().successor() != mode,
        mode.successor().successor().successor() == mode,
{
}

/// User preferences.
#[derive(Debug, Clone)]
pub struct Prefs {
    /// Selected theme name.
    pub theme: Option<String>,
    /// Display mode for column widths.
    pub display_mode: Option<DisplayMode>,
    /// PeeringDB API key for higher rate limits on IX detection.
    pub peeringdb_api_key: Option<String>,
    /// Disables the background check for a newer release: unset means enabled.
    pub no_update_check: Option<bool>,
}

impl Default for Prefs {
    fn default() -> (r: Prefs)
        ensures
            r.theme is None,
            r.display_mode is None,
            r.peeringdb_api_key is None,
            r.no_update_check is None,
    {
        Prefs { theme: None, display_mode: None, peeringdb_api_key: None, no_update_check: None }
    }
}

/// An API key as it was typed: none if empty.
pub fn typed_key(key: &str) -> (r: Option<String>)
    ensures
        opt_text(r) == (if key@.len() == 0 {
            None
        } else {
            Some(key@)
        }),
{
    if crate::text::char_count(key) == 0 {
        None
    } else {
        Some(copy_of(key))
    }
}

/// Each mode has its own name, and an empty key is none.
pub proof fn law_names_of_modes(
    mode: DisplayMode,
    name: &'static str,
    next: DisplayMode,
    key: &str,
    kept: Option<String>,
)
    requires
        call_ensures(DisplayMode::label, (&mode,), name),
        call_ensures(DisplayMode::next, (mode,), next),
        call_ensures(typed_key, (key,), kept),
    ensures
        (mode is Auto) ==> name@ == "auto"@ && (next is Compact),
        (mode is Compact) ==> name@ == "compact"@ && (next is Wide),
        (mode is Wide) ==> name@ == "wide"@ && (next is Auto),
        kept is None <==> key@.len() == 0,
        kept matches Some(text) ==> text@ == key@,
{
}

} // verus!
