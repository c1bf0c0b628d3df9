//! The colour theme: the three modes, how they cycle, and how a stored
//! choice is read back.

use vstd::prelude::*;

use crate::text::{push_str, str_eq};

verus! {

/// The colour theme the user picked.
#[derive(Clone, Copy, Debug, PartialEq, Eq, Structural)]
pub enum ThemeMode {
    /// Follow the operating system.
    System,
    Light,
    Dark,
}

/// Settings key the theme is stored under.
pub const THEME_SETTING_KEY: &'static str = "ui_theme";

pub open spec fn cycle_spec(m: ThemeMode) -> ThemeMode {
    match m {
        ThemeMode::System => ThemeMode::Light,
        ThemeMode::Light => ThemeMode::Dark,
        ThemeMode::Dark => ThemeMode::System,
    }
}

pub open spec fn mode_name(m: ThemeMode) -> Seq<char> {
    match m {
        ThemeMode::System => "system"@,
        ThemeMode::Light => "light"@,
        ThemeMode::Dark => "dark"@,
    }
}

pub open spec fn mode_from_name(s: Seq<char>) -> ThemeMode {
    if s == "light"@ {
        ThemeMode::Light
    } else if s == "dark"@ {
        ThemeMode::Dark
    } else {
        ThemeMode::System
    }
}

impl Default for ThemeMode {
    fn default() -> (r: ThemeMode)
        ensures
            r == ThemeMode::System,
    {
        ThemeMode::System
    }
}

impl ThemeMode {
    /// The next mode of the toggle: system, light, dark, system.
    pub fn cycle(self) -> (r: ThemeMode)
        ensures
            r == cycle_spec(self),
    {
        match self {
            ThemeMode::System => ThemeMode::Light,
            ThemeMode::Light => ThemeMode::Dark,
            ThemeMode::Dark => ThemeMode::System,
        }
    }

    /// The stored name of the mode.
    pub fn as_str(self) -> (r: &'static str)
        ensures
            r@ == mode_name(self),
    {
        match self {
            ThemeMode::System => "system",
            ThemeMode::Light => "light",
            ThemeMode::Dark => "dark",
        }
    }

    /// The mode a stored name stands for; anything unknown means "system".
    pub fn from_str(s: &str) -> (r: ThemeMode)
        ensures
            r == mode_from_name(s@),
    {
        if str_eq(s, "light") {
            ThemeMode::Light
        } else if str_eq(s, "dark") {
            ThemeMode::Dark
        } else {
            ThemeMode::System
        }
    }
}

/// Reading back a stored mode gives the mode that was stored.
pub proof fn lemma_name_round_trip(m: ThemeMode)
    ensures
        mode_from_name(mode_name(m)) == m,
{
    reveal_strlit("system");
    reveal_strlit("light");
    reveal_strlit("dark");
    match m {
        ThemeMode::System => {
            assert(mode_name(m).len() != "light"@.len());
            assert(mode_name(m)[0] != "dark"@[0]);
        },
        ThemeMode::Light => {},
        ThemeMode::Dark => {
            assert(mode_name(m).len() != "light"@.len());
        },
    }
}

/// Three presses of the toggle come back to the starting mode, and each
/// press changes the mode.
pub proof fn lemma_cycle_period(m: ThemeMode)
    ensures
        cycle_spec(cycle_spec(cycle_spec(m))) == m,
        cycle_spec(m) != m,
{
}

/// The mode a stored setting gives, when there is one.
pub fn theme_from_setting(value: Option<&str>) -> (r: Option<ThemeMode>)
    ensures
        match value {
            Some(v) => r == Some(mode_from_name(v@)),
            None => r is None,
        },
{
    match value {
        Some(v) => Some(ThemeMode::from_str(v)),
        None => None,
    }
}

/// The mode after the browser reported its remembered choice: it applies
/// only while the page still follows the system and a choice was stored.
pub fn apply_stored_theme(current: ThemeMode, stored: &str) -> (r: ThemeMode)
    ensures
        r == (if stored@.len() > 0 && current == ThemeMode::System { mode_from_name(stored@) } else { current }),
{
    if stored.unicode_len() > 0 && current == ThemeMode::System {
        ThemeMode::from_str(stored)
    } else {
        current
    }
}

/// The script that puts the page in dark mode for "dark", and for "system"
/// when the system prefers dark.
pub open spec fn theme_script_spec(m: ThemeMode) -> Seq<char> {
    "(function(){var m=\""@ + mode_name(m)
        + "\";var dark=m==='dark'||(m==='system'&&window.matchMedia('(prefers-color-scheme:dark)').matches);document.documentElement.classList.toggle('dark',dark);})()"@
}

pub fn theme_script(m: ThemeMode) -> (r: String)
    ensures
        r@ == theme_script_spec(m),
{
    let mut r = String::from_str("(function(){var m=\"");
    push_str(&mut r, m.as_str());
    push_str(
        &mut r,
        "\";var dark=m==='dark'||(m==='system'&&window.matchMedia('(prefers-color-scheme:dark)').matches);document.documentElement.classList.toggle('dark',dark);})()",
    );
    r
}

/// The script that makes the browser remember the picked mode.
pub fn theme_store_script(m: ThemeMode) -> (r: String)
    ensures
        r@ == "localStorage.setItem('mk_theme',\""@ + mode_name(m) + "\")"@,
{
    let mut r = String::from_str("localStorage.setItem('mk_theme',\"");
    push_str(&mut r, m.as_str());
    push_str(&mut r, "\")");
    r
}

} // verus!
