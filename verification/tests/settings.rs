use dictee::settings::{Settings, SettingsError, ShortcutMode, SETTINGS_FILE};

fn invalid_message(s: &Settings) -> String {
    match s.validate() {
        Err(SettingsError::Invalid(m)) => m,
        other => panic!("expected an invalid setting, got {other:?}"),
    }
}

#[test]
fn defaults_are_valid() {
    assert!(Settings::default().validate().is_ok());
}

#[test]
fn rejects_path_traversal_in_model_name() {
    let s = Settings {
        whisper_model: "../../etc/model.bin".into(),
        ..Settings::default()
    };
    assert!(s.validate().is_err());
}

#[test]
fn rejects_bad_language_and_duration() {
    let s = Settings {
        language: "français".into(),
        ..Settings::default()
    };
    assert!(s.validate().is_err());
    let s = Settings {
        max_recording_secs: 0,
        ..Settings::default()
    };
    assert!(s.validate().is_err());
}

#[test]
fn default_values() {
    let d = Settings::default();
    assert_eq!(d.shortcut, "Alt+Space");
    assert_eq!(d.mode, ShortcutMode::PushToTalk);
    assert_eq!(d.whisper_model, "ggml-large-v3-turbo-q5_0.bin");
    assert_eq!(d.language, "fr");
    assert_eq!(d.input_device, None);
    assert_eq!(d.max_recording_secs, 120);
    assert!(d.show_result_window);
    assert_eq!(SETTINGS_FILE, "settings.json");
}

#[test]
fn blank_shortcut_is_rejected_first() {
    let s = Settings {
        shortcut: " \t\u{3000} ".into(),
        max_recording_secs: 0,
        ..Settings::default()
    };
    assert_eq!(invalid_message(&s), "le raccourci est vide");
}

#[test]
fn duration_bounds_are_inclusive() {
    for secs in [5u32, 600] {
        let s = Settings { max_recording_secs: secs, ..Settings::default() };
        assert!(s.validate().is_ok());
    }
    for secs in [4u32, 601] {
        let s = Settings { max_recording_secs: secs, ..Settings::default() };
        assert_eq!(invalid_message(&s), "max_recording_secs doit être compris entre 5 et 600");
    }
}

#[test]
fn language_message_quotes_the_value() {
    let s = Settings { language: "français".into(), ..Settings::default() };
    assert_eq!(
        invalid_message(&s),
        "code langue attendu sur 2 lettres minuscules, reçu \"français\""
    );
    for bad in ["FR", "f", "fra", "f1", "é"] {
        let s = Settings { language: bad.into(), ..Settings::default() };
        assert!(s.validate().is_err(), "{bad}");
    }
    let s = Settings { language: "en".into(), ..Settings::default() };
    assert!(s.validate().is_ok());
}

#[test]
fn model_must_be_a_plain_bin_file_name() {
    for bad in ["../../etc/model.bin", "/model.bin", "./model.bin", "models/x.bin", "model.gguf", "model.bin/", ""] {
        let s = Settings { whisper_model: bad.into(), ..Settings::default() };
        assert_eq!(
            invalid_message(&s),
            "whisper_model doit être un simple nom de fichier .bin",
            "{bad}"
        );
    }
    for good in ["ggml-small.bin", ".bin", "..bin", "a b.bin"] {
        let s = Settings { whisper_model: good.into(), ..Settings::default() };
        assert!(s.validate().is_ok(), "{good}");
    }
}

#[test]
fn error_messages() {
    let io = SettingsError::Io { path: "/tmp/settings.json".into(), message: "refusé".into() };
    assert_eq!(io.message(), "lecture/écriture de /tmp/settings.json impossible : refusé");
    let parse = SettingsError::Parse { path: "/tmp/settings.json".into(), message: "ligne 1".into() };
    assert_eq!(parse.message(), "/tmp/settings.json n'est pas un JSON de réglages valide : ligne 1");
    let invalid = SettingsError::Invalid("le raccourci est vide".into());
    assert_eq!(invalid.message(), "réglage invalide : le raccourci est vide");
}

#[test]
fn duplicate_keeps_every_field() {
    let s = Settings {
        input_device: Some("USB".into()),
        mode: ShortcutMode::Toggle,
        ..Settings::default()
    };
    assert_eq!(s.duplicate(), s);
}
