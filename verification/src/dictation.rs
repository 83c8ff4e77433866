//! The shortcut's state machine: what to do on each key event, with no I/O.
//! The controller carries out what it decides.
use std::time::Duration;
use vstd::prelude::*;

use crate::settings::ShortcutMode;

verus! {

/// In push-to-talk, a press held for less than this many milliseconds is
/// taken as accidental.
pub const MIN_PUSH_TO_TALK_MS: u64 = 300;

/// Where the dictation stands.
#[derive(Debug, Clone, Copy, PartialEq, Eq, Structural)]
pub enum Phase {
    Idle,
    Recording,
    Processing,
}

/// What the global shortcut reports.
#[derive(Debug, Clone, Copy, PartialEq, Eq, Structural)]
pub enum KeyEvent {
    Pressed,
    Released,
}

/// What the controller is asked to do.
#[derive(Debug, Clone, Copy, PartialEq, Eq, Structural)]
pub enum Action {
    StartRecording,
    StopAndTranscribe,
    /// Stops and throws the audio away without transcribing it.
    Cancel,
    Nothing,
}

/// The whole milliseconds in a duration, as `Duration::as_millis` gives them.
pub uninterp spec fn duration_millis(d: Duration) -> u128;

/// `Duration::as_millis`: the whole milliseconds in `d`. Named, not
/// restated: Verus sees nothing inside a `Duration`.
#[verifier::external_body]
fn millis_of(d: Duration) -> (ms: u128)
    ensures
        ms == duration_millis(d),
{
    d.as_millis()
}

/// The decision, given how long the recording has lasted in whole
/// milliseconds (`None` when nothing is being recorded).
pub open spec fn action_for(mode: ShortcutMode, phase: Phase, key: KeyEvent, held_ms: Option<int>) -> Action {
    match phase {
        // Work is under way: keys are ignored, the indicator says "busy".
        Phase::Processing => Action::Nothing,
        Phase::Idle => match key {
            KeyEvent::Pressed => Action::StartRecording,
            KeyEvent::Released => Action::Nothing,
        },
        Phase::Recording => match (mode, key) {
            // The keyboard's auto-repeat may send Pressed again.
            (ShortcutMode::PushToTalk, KeyEvent::Pressed) => Action::Nothing,
            (ShortcutMode::PushToTalk, KeyEvent::Released) => match held_ms {
                Some(ms) => if ms < MIN_PUSH_TO_TALK_MS {
                    Action::Cancel
                } else {
                    Action::StopAndTranscribe
                },
                None => Action::StopAndTranscribe,
            },
            (ShortcutMode::Toggle, KeyEvent::Pressed) => Action::StopAndTranscribe,
            (ShortcutMode::Toggle, KeyEvent::Released) => Action::Nothing,
        },
    }
}

/// `held_for` in whole milliseconds.
pub open spec fn held_millis(held_for: Option<Duration>) -> Option<int> {
    match held_for {
        Some(d) => Some(duration_millis(d) as int),
        None => None,
    }
}

/// Decides what a key event asks for. `held_for`: time since the recording
/// started, if one is under way.
pub fn on_key(mode: ShortcutMode, phase: Phase, key: KeyEvent, held_for: Option<Duration>) -> (a: Action)
    ensures
        a == action_for(mode, phase, key, held_millis(held_for)),
{
    match phase {
        Phase::Processing => Action::Nothing,
        Phase::Idle => match key {
            KeyEvent::Pressed => Action::StartRecording,
            KeyEvent::Released => Action::Nothing,
        },
        Phase::Recording => match (mode, key) {
            (ShortcutMode::PushToTalk, KeyEvent::Pressed) => Action::Nothing,
            (ShortcutMode::PushToTalk, KeyEvent::Released) => match held_for {
                Some(d) => if millis_of(d) < MIN_PUSH_TO_TALK_MS as u128 {
                    Action::Cancel
                } else {
                    Action::StopAndTranscribe
                },
                None => Action::StopAndTranscribe,
            },
            (ShortcutMode::Toggle, KeyEvent::Pressed) => Action::StopAndTranscribe,
            (ShortcutMode::Toggle, KeyEvent::Released) => Action::Nothing,
        },
    }
}

/// While a dictation is being processed, no key does anything.
pub proof fn lemma_busy_while_processing(mode: ShortcutMode, key: KeyEvent, held_ms: Option<int>)
    ensures
        action_for(mode, Phase::Processing, key, held_ms) == Action::Nothing,
{
}

/// A recording starts exactly on a press while idle.
pub proof fn lemma_start_only_from_idle_press(mode: ShortcutMode, phase: Phase, key: KeyEvent, held_ms: Option<int>)
    ensures
        action_for(mode, phase, key, held_ms) == Action::StartRecording <==> (phase == Phase::Idle
            && key == KeyEvent::Pressed),
{
}

/// A recording is thrown away exactly when, in push-to-talk, the key is
/// released less than the minimum hold after the recording began.
pub proof fn lemma_cancel_only_short_push_to_talk(mode: ShortcutMode, phase: Phase, key: KeyEvent, held_ms: Option<int>)
    ensures
        action_for(mode, phase, key, held_ms) == Action::Cancel <==> {
            &&& mode == ShortcutMode::PushToTalk
            &&& phase == Phase::Recording
            &&& key == KeyEvent::Released
            &&& held_ms matches Some(ms) && ms < MIN_PUSH_TO_TALK_MS
        },
{
}

/// In toggle mode releases are ignored, and a session however short is
/// never cancelled: the second press stops and transcribes it.
pub proof fn lemma_toggle_ignores_releases(phase: Phase, held_ms: Option<int>)
    ensures
        action_for(ShortcutMode::Toggle, phase, KeyEvent::Released, held_ms) == Action::Nothing,
        action_for(ShortcutMode::Toggle, Phase::Recording, KeyEvent::Pressed, held_ms)
            == Action::StopAndTranscribe,
{
}

/// In push-to-talk, the keyboard's auto-repeat (a second press while
/// recording) does nothing, and a release held long enough transcribes.
pub proof fn lemma_push_to_talk_release(held_ms: Option<int>)
    ensures
        action_for(ShortcutMode::PushToTalk, Phase::Recording, KeyEvent::Pressed, held_ms)
            == Action::Nothing,
        (held_ms matches Some(ms) ==> ms >= MIN_PUSH_TO_TALK_MS) ==> action_for(
            ShortcutMode::PushToTalk,
            Phase::Recording,
            KeyEvent::Released,
            held_ms,
        ) == Action::StopAndTranscribe,
{
}

} // verus!
