//! Application settings: the theme, the first-run record, and how each is
//! chosen when stored values are missing or unreadable.
use vstd::prelude::*;

verus! {

#[derive(PartialEq, Eq, Structural, Clone, Copy, Debug)]
pub enum Theme {
    Light,
    Dark,
}

#[derive(PartialEq, Eq, Structural, Clone, Copy, Debug)]
pub struct Settings {
    pub theme: Theme,
}

#[derive(PartialEq, Eq, Structural, Clone, Copy, Debug)]
pub struct AppData {
    pub passed_messageboxw: bool,
}

impl Default for Settings {
    fn default() -> (r: Settings)
        ensures
            r.theme == Theme::Light,
    {
        Settings { theme: Theme::Light }
    }
}

impl Default for AppData {
    fn default() -> (r: AppData)
        ensures
            !r.passed_messageboxw,
    {
        AppData { passed_messageboxw: false }
    }
}

/// The theme the system asks for, given the light-theme flag read from the
/// system (none when it could not be read): dark exactly when the flag reads
/// zero.
pub fn theme_from_flag(apps_use_light_theme: Option<u32>) -> (r: Theme)
    ensures
        r == (if apps_use_light_theme == Some(0u32) { Theme::Dark } else { Theme::Light }),
{
    match apps_use_light_theme {
        Some(0) => Theme::Dark,
        _ => Theme::Light,
    }
}

/// The theme's name as the interface spells it.
pub fn theme_name(theme: Theme) -> (r: String)
    ensures
        r@ == (match theme {
            Theme::Light => "light"@,
            Theme::Dark => "dark"@,
        }),
{
    match theme {
        Theme::Light => String::from_str("light"),
        Theme::Dark => String::from_str("dark"),
    }
}

/// The settings in effect: those stored, when they were read and parsed;
/// else the system's theme.
pub fn settings_or_system(stored: Option<Settings>, system: Theme) -> (r: Settings)
    ensures
        r == (match stored {
            Some(s) => s,
            None => Settings { theme: system },
        }),
{
    match stored {
        Some(s) => s,
        None => Settings { theme: system },
    }
}

/// The first-run record in effect: the stored one, when it was read and
/// parsed; else the default.
pub fn app_data_or_default(stored: Option<AppData>) -> (r: AppData)
    ensures
        r == (match stored {
            Some(d) => d,
            None => AppData { passed_messageboxw: false },
        }),
{
    match stored {
        Some(d) => d,
        None => AppData { passed_messageboxw: false },
    }
}

/// What the first-run notice leads to, given the button it returned (1 is
/// OK): the record to save, or `None` when the application must exit.
pub fn after_notice(button: i32) -> (r: Option<AppData>)
    ensures
        button == 1 ==> r == Some(AppData { passed_messageboxw: true }),
        button != 1 ==> r is None,
{
    if button == 1 {
        Some(AppData { passed_messageboxw: true })
    } else {
        None
    }
}

} // verus!
