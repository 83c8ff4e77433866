use dictee::settings::{Settings, SettingsError, ShortcutMode};
use dictee::startup::{startup_problem, tray_hint};

#[test]
fn tray_hint_names_shortcut_and_mode() {
    assert_eq!(tray_hint(&Settings::default()), "Dicter : Alt+Space (maintenir)");
    let s = Settings { shortcut: "F13".into(), mode: ShortcutMode::Toggle, ..Settings::default() };
    assert_eq!(tray_hint(&s), "Dicter : F13 (appuyer pour démarrer/arrêter)");
}

#[test]
fn settings_error_comes_before_shortcut_error() {
    let e = SettingsError::Invalid("le raccourci est vide".into());
    assert_eq!(
        startup_problem(Some(&e), "Alt+Space", Some("déjà pris")),
        Some("Réglages ignorés : réglage invalide : le raccourci est vide".to_string())
    );
    assert_eq!(
        startup_problem(None, "Alt+Space", Some("déjà pris")),
        Some("Raccourci « Alt+Space » inutilisable : déjà pris".to_string())
    );
    assert_eq!(startup_problem(None, "Alt+Space", None), None);
}
