use std::time::Duration;

use dictee::audio::AudioError;
use dictee::dictation::KeyEvent::{Pressed, Released};
use dictee::dictation::Phase;
use dictee::pipeline::{Controller, Effect, ModelStatus, StateEvent, Timings, MSG_NO_SIGNAL};
use dictee::settings::{Settings, ShortcutMode};
use dictee::stt::SttError;

fn emit(phase: Phase, message: Option<&str>) -> Effect {
    Effect::Emit(StateEvent { phase, message: message.map(|m| m.to_string()) })
}

fn ready(settings: Settings) -> Controller<String> {
    let mut c = Controller::new(settings);
    assert_eq!(c.model_loaded(ModelStatus::Ready { load_ms: 7 }), vec![emit(Phase::Idle, None)]);
    c
}

#[test]
fn push_to_talk_dictation_cycle() {
    let mut c = ready(Settings::default());
    assert_eq!(
        c.on_key(Pressed, None),
        vec![Effect::OpenCapture { device: None, max_secs: 120 }]
    );
    assert_eq!(
        c.capture_opened(Ok(())),
        vec![emit(Phase::Recording, None), Effect::ArmTimeLimit { session: 1, secs: 120 }]
    );
    assert_eq!(c.phase(), Phase::Recording);
    assert_eq!(c.on_key(Pressed, Some(Duration::from_millis(500))), vec![]);
    assert_eq!(c.on_key(Released, Some(Duration::from_secs(2))), vec![Effect::CloseCapture]);
    assert_eq!(c.capture_closed(Ok(())), vec![Effect::SendJob]);
    assert_eq!(c.job_sent(true), vec![emit(Phase::Processing, None)]);
    assert_eq!(
        c.on_key(Pressed, None),
        vec![emit(Phase::Processing, Some("Traitement en cours…"))]
    );
    assert_eq!(c.on_key(Released, None), vec![]);
    assert_eq!(
        c.job_done(Ok(Some("Bonjour".to_string()))),
        vec![emit(Phase::Idle, None), Effect::PublishResult, Effect::ShowMainWindow]
    );
    assert_eq!(c.last_result(), &Some("Bonjour".to_string()));
    assert_eq!(c.last_error(), None);
    assert_eq!(c.phase(), Phase::Idle);
}

#[test]
fn short_tap_discards_the_audio() {
    let mut c = ready(Settings::default());
    c.on_key(Pressed, None);
    c.capture_opened(Ok(()));
    assert_eq!(
        c.on_key(Released, Some(Duration::from_millis(80))),
        vec![Effect::DiscardCapture, emit(Phase::Idle, None)]
    );
    assert_eq!(c.phase(), Phase::Idle);
}

#[test]
fn toggle_mode_with_device_and_no_result_window() {
    let settings = Settings {
        mode: ShortcutMode::Toggle,
        input_device: Some("USB".into()),
        max_recording_secs: 30,
        show_result_window: false,
        ..Settings::default()
    };
    let mut c = ready(settings);
    assert_eq!(
        c.on_key(Pressed, None),
        vec![Effect::OpenCapture { device: Some("USB".into()), max_secs: 30 }]
    );
    c.capture_opened(Ok(()));
    assert_eq!(c.on_key(Released, Some(Duration::from_millis(10))), vec![]);
    assert_eq!(c.on_key(Pressed, Some(Duration::from_millis(10))), vec![Effect::CloseCapture]);
    c.capture_closed(Ok(()));
    c.job_sent(true);
    assert_eq!(
        c.job_done(Ok(Some("x".to_string()))),
        vec![emit(Phase::Idle, None), Effect::PublishResult]
    );
}

#[test]
fn time_limit_only_stops_its_own_recording() {
    let mut c = ready(Settings::default());
    c.on_key(Pressed, None);
    c.capture_opened(Ok(()));
    c.on_key(Released, Some(Duration::from_millis(50)));
    c.on_key(Pressed, None);
    assert_eq!(
        c.capture_opened(Ok(())),
        vec![emit(Phase::Recording, None), Effect::ArmTimeLimit { session: 2, secs: 120 }]
    );
    assert_eq!(c.on_time_limit(1), vec![]);
    assert_eq!(c.phase(), Phase::Recording);
    assert_eq!(c.on_time_limit(2), vec![Effect::CloseCapture]);
}

#[test]
fn unusable_model_refuses_to_record() {
    let mut c: Controller<String> = Controller::new(Settings::default());
    c.model_loaded(ModelStatus::from_load(Err(SttError::ModelMissing("/m.bin".into()))));
    assert_eq!(c.model(), &ModelStatus::Missing { path: "/m.bin".into() });
    let msg = "Modèle de transcription indisponible (voir la fenêtre).";
    assert_eq!(c.on_key(Pressed, None), vec![emit(Phase::Idle, Some(msg))]);
    assert_eq!(c.last_error(), Some(msg.to_string()));
}

#[test]
fn model_status_after_loading() {
    assert_eq!(ModelStatus::from_load(Ok(42)), ModelStatus::Ready { load_ms: 42 });
    assert_eq!(
        ModelStatus::from_load(Err(SttError::Load("corrompu".into()))),
        ModelStatus::Failed { message: "chargement du modèle impossible : corrompu".into() }
    );
}

#[test]
fn microphone_failures_are_reported() {
    let mut c = ready(Settings::default());
    c.on_key(Pressed, None);
    assert_eq!(
        c.capture_opened(Err(AudioError::NoInputDevice)),
        vec![emit(Phase::Idle, Some("Micro : aucun micro disponible"))]
    );
    c.on_key(Pressed, None);
    c.capture_opened(Ok(()));
    c.on_key(Released, Some(Duration::from_secs(1)));
    assert_eq!(
        c.capture_closed(Err(AudioError::CaptureThreadDied)),
        vec![emit(
            Phase::Idle,
            Some("Micro : le thread de capture s'est arrêté de façon inattendue")
        )]
    );
}

#[test]
fn worker_gone_and_no_speech() {
    let mut c = ready(Settings::default());
    c.on_key(Pressed, None);
    c.capture_opened(Ok(()));
    c.on_key(Released, Some(Duration::from_secs(1)));
    c.capture_closed(Ok(()));
    assert_eq!(
        c.job_sent(false),
        vec![emit(Phase::Idle, Some("Le moteur de transcription ne répond plus."))]
    );
    c.on_key(Pressed, None);
    c.capture_opened(Ok(()));
    c.on_key(Released, Some(Duration::from_secs(1)));
    c.capture_closed(Ok(()));
    c.job_sent(true);
    assert_eq!(c.job_done(Ok(None)), vec![emit(Phase::Idle, Some("Aucune parole détectée"))]);
    c.on_key(Pressed, None);
    c.capture_opened(Ok(()));
    c.on_key(Released, Some(Duration::from_secs(1)));
    c.capture_closed(Ok(()));
    c.job_sent(true);
    assert_eq!(
        c.job_done(Err(MSG_NO_SIGNAL.to_string())),
        vec![emit(Phase::Idle, Some(MSG_NO_SIGNAL))]
    );
}

#[test]
fn startup_errors_and_worker_failure() {
    let mut c: Controller<String> = Controller::new(Settings::default());
    c.worker_not_started("plus de threads");
    assert_eq!(
        c.model(),
        &ModelStatus::Failed { message: "thread de transcription non démarré : plus de threads".into() }
    );
    assert_eq!(
        c.report_error("Raccourci inutilisable".into()),
        vec![emit(Phase::Idle, Some("Raccourci inutilisable"))]
    );
    assert_eq!(c.last_error(), Some("Raccourci inutilisable".to_string()));
    assert_eq!(c.session(), 0);
    assert_eq!(c.settings(), &Settings::default());
}

#[test]
fn timings_default_to_zero() {
    let t = Timings::default();
    assert_eq!((t.capture_stop_ms, t.preprocess_ms, t.transcription_ms, t.total_ms), (0, 0, 0, 0));
}

#[test]
fn snapshot_copies_the_state() {
    let mut c = ready(Settings::default());
    c.on_key(Pressed, None);
    c.capture_opened(Ok(()));
    c.on_key(Released, Some(Duration::from_secs(1)));
    c.capture_closed(Ok(()));
    c.job_sent(true);
    c.job_done(Ok(Some("Bonjour".to_string())));
    let snap = c.snapshot();
    assert_eq!(snap.phase, Phase::Idle);
    assert_eq!(snap.model, ModelStatus::Ready { load_ms: 7 });
    assert_eq!(snap.settings, Settings::default());
    assert_eq!(snap.last_result, Some("Bonjour".to_string()));
    assert_eq!(snap.last_error, None);
}
