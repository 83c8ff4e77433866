//! What the application says at launch: the menu's hint, and the error to
//! show when the settings or the shortcut cannot be used.
use vstd::prelude::*;
use vstd::string::StringExecFns;

use crate::settings::{Settings, SettingsError, ShortcutMode};

verus! {

/// How the menu describes a mode.
pub open spec fn mode_hint(mode: ShortcutMode) -> Seq<char> {
    match mode {
        ShortcutMode::PushToTalk => "maintenir"@,
        ShortcutMode::Toggle => "appuyer pour démarrer/arrêter"@,
    }
}

/// The menu's first line: the shortcut and how to use it.
pub fn tray_hint(settings: &Settings) -> (r: String)
    ensures
        r@ == "Dicter : "@ + settings.shortcut@ + " ("@ + mode_hint(settings.mode) + ")"@,
{
    let mut r = "Dicter : ".to_string();
    r.append(settings.shortcut.as_str());
    r.append(" (");
    match settings.mode {
        ShortcutMode::PushToTalk => r.append("maintenir"),
        ShortcutMode::Toggle => r.append("appuyer pour démarrer/arrêter"),
    }
    r.append(")");
    r
}

/// The error shown at launch, if any: an unusable settings file comes
/// first, then an unusable shortcut.
pub open spec fn startup_message(
    settings_error: Option<SettingsError>,
    shortcut: Seq<char>,
    shortcut_error: Option<Seq<char>>,
) -> Option<Seq<char>> {
    match settings_error {
        Some(e) => Some("Réglages ignorés : "@ + e.message_view()),
        None => match shortcut_error {
            Some(m) => Some("Raccourci « "@ + shortcut + " » inutilisable : "@ + m),
            None => None,
        },
    }
}

/// The error to show at launch, given why the settings were ignored (if
/// they were) and why the shortcut could not be registered (if it could not).
pub fn startup_problem(
    settings_error: Option<&SettingsError>,
    shortcut: &str,
    shortcut_error: Option<&str>,
) -> (r: Option<String>)
    ensures
        match r {
            Some(m) => startup_message(
                match settings_error {
                    Some(e) => Some(*e),
                    None => None,
                },
                shortcut@,
                match shortcut_error {
                    Some(s) => Some(s@),
                    None => None,
                },
            ) == Some(m@),
            None => startup_message(
                match settings_error {
                    Some(e) => Some(*e),
                    None => None,
                },
                shortcut@,
                match shortcut_error {
                    Some(s) => Some(s@),
                    None => None,
                },
            ) is None,
        },
{
    match settings_error {
        Some(e) => {
            let mut m = "Réglages ignorés : ".to_string();
            m.append(e.message().as_str());
            Some(m)
        },
        None => match shortcut_error {
            Some(s) => {
                let mut m = "Raccourci « ".to_string();
                m.append(shortcut);
                m.append(" » inutilisable : ");
                m.append(s);
                Some(m)
            },
            None => None,
        },
    }
}

} // verus!
