//! The theme chosen at run time, kept as the code a one-byte cell stores.

use vstd::prelude::*;

verus! {

/// The themes the application offers.
#[derive(Debug, Clone, Copy, PartialEq, Eq, Structural)]
pub enum AppTheme {
    Light,
    Steam,
    GtkDark,
    Windows11,
    MacOS,
    HighContrast,
}

/// The code a theme is stored under.
pub open spec fn theme_code(t: AppTheme) -> u8 {
    match t {
        AppTheme::Light => 0,
        AppTheme::Steam => 1,
        AppTheme::GtkDark => 2,
        AppTheme::Windows11 => 3,
        AppTheme::MacOS => 4,
        AppTheme::HighContrast => 5,
    }
}

/// The theme stored under `code`, if any.
pub open spec fn theme_of_code(code: u8) -> Option<AppTheme> {
    if code == 0 {
        Some(AppTheme::Light)
    } else if code == 1 {
        Some(AppTheme::Steam)
    } else if code == 2 {
        Some(AppTheme::GtkDark)
    } else if code == 3 {
        Some(AppTheme::Windows11)
    } else if code == 4 {
        Some(AppTheme::MacOS)
    } else if code == 5 {
        Some(AppTheme::HighContrast)
    } else {
        None
    }
}

impl AppTheme {
    /// The code the theme is stored under.
    pub fn to_u8(&self) -> (c: u8)
        ensures
            c == theme_code(*self),
    {
        match self {
            AppTheme::Light => 0,
            AppTheme::Steam => 1,
            AppTheme::GtkDark => 2,
            AppTheme::Windows11 => 3,
            AppTheme::MacOS => 4,
            AppTheme::HighContrast => 5,
        }
    }

    /// The theme stored under `code`, if any.
    pub fn from_u8(code: u8) -> (t: Option<AppTheme>)
        ensures
            t == theme_of_code(code),
    {
        if code == 0 {
            Some(AppTheme::Light)
        } else if code == 1 {
            Some(AppTheme::Steam)
        } else if code == 2 {
            Some(AppTheme::GtkDark)
        } else if code == 3 {
            Some(AppTheme::Windows11)
        } else if code == 4 {
            Some(AppTheme::MacOS)
        } else if code == 5 {
            Some(AppTheme::HighContrast)
        } else {
            None
        }
    }
}

/// The cell holding the current theme's code (zero at start).
#[derive(Debug, Clone, Copy, PartialEq, Eq, Structural)]
pub struct ThemeState {
    pub code: u8,
}

impl Default for ThemeState {
    fn default() -> (s: ThemeState)
        ensures
            s.code == 0,
    {
        ThemeState { code: 0 }
    }
}

/// Stores `theme` as the current theme.
pub fn set_theme(state: &mut ThemeState, theme: AppTheme)
    ensures
        final(state).code == theme_code(theme),
{
    state.code = theme.to_u8();
}

/// The current theme: the stored one, or `platform_default` when the stored code names none.
pub fn current_theme(state: &ThemeState, platform_default: AppTheme) -> (t: AppTheme)
    ensures
        t == match theme_of_code(state.code) {
            Some(stored) => stored,
            None => platform_default,
        },
{
    match AppTheme::from_u8(state.code) {
        Some(t) => t,
        None => platform_default,
    }
}

/// Reading back a stored theme gives that theme, whatever the platform default.
pub proof fn law_current_theme_is_last_set(theme: AppTheme, platform_default: AppTheme)
    ensures
        match theme_of_code(theme_code(theme)) {
            Some(stored) => stored,
            None => platform_default,
        } == theme,
{
}

} // verus!
