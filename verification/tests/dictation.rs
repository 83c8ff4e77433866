use std::time::Duration;

use dictee::dictation::Action::{Cancel, Nothing, StartRecording, StopAndTranscribe};
use dictee::dictation::KeyEvent::{Pressed, Released};
use dictee::dictation::{on_key, Phase, MIN_PUSH_TO_TALK_MS};
use dictee::settings::ShortcutMode::{PushToTalk, Toggle};

const LONG: Option<Duration> = Some(Duration::from_secs(5));

#[test]
fn push_to_talk_cycle() {
    assert_eq!(on_key(PushToTalk, Phase::Idle, Pressed, None), StartRecording);
    assert_eq!(on_key(PushToTalk, Phase::Recording, Pressed, LONG), Nothing);
    assert_eq!(on_key(PushToTalk, Phase::Recording, Released, LONG), StopAndTranscribe);
}

#[test]
fn push_to_talk_short_tap_is_cancelled() {
    let tap = Some(Duration::from_millis(80));
    assert_eq!(on_key(PushToTalk, Phase::Recording, Released, tap), Cancel);
}

#[test]
fn toggle_cycle_ignores_releases() {
    assert_eq!(on_key(Toggle, Phase::Idle, Pressed, None), StartRecording);
    assert_eq!(on_key(Toggle, Phase::Recording, Released, LONG), Nothing);
    assert_eq!(on_key(Toggle, Phase::Recording, Pressed, LONG), StopAndTranscribe);
    assert_eq!(on_key(Toggle, Phase::Idle, Released, None), Nothing);
}

#[test]
fn toggle_short_session_is_not_cancelled() {
    let short = Some(Duration::from_millis(80));
    assert_eq!(on_key(Toggle, Phase::Recording, Pressed, short), StopAndTranscribe);
}

#[test]
fn busy_while_processing() {
    for mode in [PushToTalk, Toggle] {
        for key in [Pressed, Released] {
            assert_eq!(on_key(mode, Phase::Processing, key, None), Nothing);
        }
    }
}

#[test]
fn push_to_talk_boundary_is_three_hundred_millis() {
    let just_under = Some(Duration::from_micros(299_999));
    let exactly = Some(Duration::from_millis(MIN_PUSH_TO_TALK_MS));
    assert_eq!(on_key(PushToTalk, Phase::Recording, Released, just_under), Cancel);
    assert_eq!(on_key(PushToTalk, Phase::Recording, Released, exactly), StopAndTranscribe);
}

#[test]
fn push_to_talk_release_without_recording_time_transcribes() {
    assert_eq!(on_key(PushToTalk, Phase::Recording, Released, None), StopAndTranscribe);
}

#[test]
fn idle_release_does_nothing_in_push_to_talk() {
    assert_eq!(on_key(PushToTalk, Phase::Idle, Released, None), Nothing);
}
