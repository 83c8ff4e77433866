//! The controller: what the application does on each shortcut event,
//! capture report, time limit and transcription outcome.
//!
//! Each method takes one event and returns the effects to carry out, in
//! order (emit a state event, open or close the microphone, hand audio to
//! the worker…). The code around the library carries them out and reports
//! back the outcome of those that can fail: it opens the microphone, then
//! calls `capture_opened`; it closes it, then calls `capture_closed`; it
//! sends the audio to the worker, then calls `job_sent`.
use std::time::Duration;
use vstd::prelude::*;
use vstd::string::StringExecFns;

use crate::audio::recorder::AudioError;
use crate::dictation::{action_for, held_millis, on_key, Action, KeyEvent, Phase};
use crate::settings::{opt_view, Settings, SettingsView};
use crate::stt::{counted_words, word_count, SttError};

verus! {

/// State of the speech model.
#[derive(Debug, PartialEq, Eq)]
pub enum ModelStatus {
    Loading,
    Ready { load_ms: u64 },
    Missing { path: String },
    Failed { message: String },
}

/// `ModelStatus` as plain values.
pub enum ModelView {
    Loading,
    Ready { load_ms: u64 },
    Missing { path: Seq<char> },
    Failed { message: Seq<char> },
}

impl View for ModelStatus {
    type V = ModelView;

    open spec fn view(&self) -> ModelView {
        match self {
            ModelStatus::Loading => ModelView::Loading,
            ModelStatus::Ready { load_ms } => ModelView::Ready { load_ms: *load_ms },
            ModelStatus::Missing { path } => ModelView::Missing { path: path@ },
            ModelStatus::Failed { message } => ModelView::Failed { message: message@ },
        }
    }
}

impl ModelStatus {
    /// The same status, in a new value.
    pub fn duplicate(&self) -> (r: Self)
        ensures
            r@ == self@,
    {
        match self {
            ModelStatus::Loading => ModelStatus::Loading,
            ModelStatus::Ready { load_ms } => ModelStatus::Ready { load_ms: *load_ms },
            ModelStatus::Missing { path } => ModelStatus::Missing { path: path.clone() },
            ModelStatus::Failed { message } => ModelStatus::Failed { message: message.clone() },
        }
    }

    /// The status once the model has loaded in `Ok(load_ms)` milliseconds,
    /// or has failed to.
    pub fn from_load(outcome: Result<u64, SttError>) -> (r: Self)
        ensures
            r@ == match outcome {
                Ok(ms) => ModelView::Ready { load_ms: ms },
                Err(SttError::ModelMissing(p)) => ModelView::Missing { path: p@ },
                Err(e) => ModelView::Failed { message: e.message_view() },
            },
    {
        match outcome {
            Ok(ms) => ModelStatus::Ready { load_ms: ms },
            Err(SttError::ModelMissing(p)) => ModelStatus::Missing { path: p },
            Err(e) => ModelStatus::Failed { message: e.message() },
        }
    }
}

/// The model is known to be unusable.
pub open spec fn model_unusable(m: ModelView) -> bool {
    m is Missing || m is Failed
}

/// Latencies measured for each step, in milliseconds.
#[derive(Debug, Clone, Copy, Default, PartialEq, Eq)]
pub struct Timings {
    /// Closing the microphone after the key was released.
    pub capture_stop_ms: u64,
    /// Resampling and speech detection.
    pub preprocess_ms: u64,
    pub transcription_ms: u64,
    /// From the key's release to the text being ready.
    pub total_ms: u64,
}

/// The `dictation-state` event.
#[derive(Debug, PartialEq, Eq)]
pub struct StateEvent {
    pub phase: Phase,
    /// Short message for the indicator (never dictated text).
    pub message: Option<String>,
}

/// `StateEvent` as plain values.
pub struct StateEventView {
    pub phase: Phase,
    pub message: Option<Seq<char>>,
}

impl View for StateEvent {
    type V = StateEventView;

    open spec fn view(&self) -> StateEventView {
        StateEventView { phase: self.phase, message: opt_view(self.message) }
    }
}

/// What the controller asks to be done.
#[derive(Debug, PartialEq, Eq)]
pub enum Effect {
    /// Emit the `dictation-state` event.
    Emit(StateEvent),
    /// Open the microphone; report with `capture_opened`.
    OpenCapture { device: Option<String>, max_secs: u32 },
    /// After `secs` seconds, report `on_time_limit(session)`.
    ArmTimeLimit { session: u64, secs: u32 },
    /// Close the microphone and keep the audio; report with `capture_closed`.
    CloseCapture,
    /// Close the microphone and throw the audio away.
    DiscardCapture,
    /// Hand the audio to the transcription worker; report with `job_sent`.
    SendJob,
    /// Emit the `dictation-result` event with the last result.
    PublishResult,
    /// Bring the main window forward.
    ShowMainWindow,
}

/// `Effect` as plain values.
pub enum EffectView {
    Emit(StateEventView),
    OpenCapture { device: Option<Seq<char>>, max_secs: u32 },
    ArmTimeLimit { session: u64, secs: u32 },
    CloseCapture,
    DiscardCapture,
    SendJob,
    PublishResult,
    ShowMainWindow,
}

impl View for Effect {
    type V = EffectView;

    open spec fn view(&self) -> EffectView {
        match self {
            Effect::Emit(e) => EffectView::Emit(e@),
            Effect::OpenCapture { device, max_secs } => EffectView::OpenCapture {
                device: opt_view(*device),
                max_secs: *max_secs,
            },
            Effect::ArmTimeLimit { session, secs } => EffectView::ArmTimeLimit {
                session: *session,
                secs: *secs,
            },
            Effect::CloseCapture => EffectView::CloseCapture,
            Effect::DiscardCapture => EffectView::DiscardCapture,
            Effect::SendJob => EffectView::SendJob,
            Effect::PublishResult => EffectView::PublishResult,
            Effect::ShowMainWindow => EffectView::ShowMainWindow,
        }
    }
}

/// The effects as plain values.
pub open spec fn effects_view(v: Seq<Effect>) -> Seq<EffectView> {
    v.map_values(|e: Effect| e@)
}

/// A step that the controller has asked for and whose outcome it awaits.
#[derive(Debug, Clone, Copy, PartialEq, Eq, Structural)]
pub enum Pending {
    Nothing,
    /// The microphone is being opened.
    Open,
    /// The microphone is being closed, its audio kept.
    Close,
    /// The audio is being handed to the worker.
    Send,
}

pub const MSG_MODEL_UNAVAILABLE: &'static str = "Modèle de transcription indisponible (voir la fenêtre).";

pub const MSG_MIC_PREFIX: &'static str = "Micro : ";

pub const MSG_WORKER_GONE: &'static str = "Le moteur de transcription ne répond plus.";

pub const MSG_BUSY: &'static str = "Traitement en cours…";

pub const MSG_NO_SPEECH: &'static str = "Aucune parole détectée";

pub const MSG_WORKER_NOT_STARTED: &'static str = "thread de transcription non démarré : ";

pub const MSG_NO_MODEL: &'static str = "Modèle de transcription indisponible.";

pub const MSG_NO_SIGNAL: &'static str = "Aucun signal micro. Vérifiez l'autorisation Micro dans Réglages Système › Confidentialité et sécurité.";

/// What the windows are shown of the controller's state.
pub struct StatusSnapshot<D> {
    pub phase: Phase,
    pub model: ModelStatus,
    pub settings: Settings,
    pub last_result: Option<D>,
    pub last_error: Option<String>,
}

/// Shared state of the application, `D` being what a finished dictation
/// yields.
pub struct Controller<D> {
    settings: Settings,
    phase: Phase,
    mic_open: bool,
    pending: Pending,
    /// Counts recordings, so that a time limit never stops a later one.
    session: u64,
    model: ModelStatus,
    last_result: Option<D>,
    last_error: Option<String>,
}

/// The controller as plain values.
pub struct ControllerView<D> {
    pub settings: SettingsView,
    pub phase: Phase,
    pub mic_open: bool,
    pub pending: Pending,
    pub session: u64,
    pub model: ModelView,
    pub last_result: Option<D>,
    pub last_error: Option<Seq<char>>,
}

impl<D> View for Controller<D> {
    type V = ControllerView<D>;

    closed spec fn view(&self) -> ControllerView<D> {
        ControllerView {
            settings: self.settings@,
            phase: self.phase,
            mic_open: self.mic_open,
            pending: self.pending,
            session: self.session,
            model: self.model@,
            last_result: self.last_result,
            last_error: opt_view(self.last_error),
        }
    }
}

/// What a transition yields: the next state and the effects, in order.
pub type Step<D> = (ControllerView<D>, Seq<EffectView>);

/// Emits the state event for `phase`.
pub open spec fn emit(phase: Phase, message: Option<Seq<char>>) -> EffectView {
    EffectView::Emit(StateEventView { phase, message })
}

/// Moves to `phase` and tells the indicator.
pub open spec fn set_phase<D>(s: ControllerView<D>, phase: Phase, message: Option<Seq<char>>) -> Step<D> {
    (ControllerView { phase, ..s }, seq![emit(phase, message)])
}

/// Reports a failure: kept as the last error, back to idle, and shown.
pub open spec fn fail<D>(s: ControllerView<D>, message: Seq<char>) -> Step<D> {
    (
        ControllerView { last_error: Some(message), phase: Phase::Idle, ..s },
        seq![emit(Phase::Idle, Some(message))],
    )
}

/// Stops the recording and hands it over, or goes back to idle when there
/// is none.
pub open spec fn stop_and_submit<D>(s: ControllerView<D>) -> Step<D> {
    if s.mic_open {
        (ControllerView { mic_open: false, pending: Pending::Close, ..s }, seq![EffectView::CloseCapture])
    } else {
        set_phase(s, Phase::Idle, None)
    }
}

/// The response to a key event.
pub open spec fn key_step<D>(s: ControllerView<D>, key: KeyEvent, held_ms: Option<int>) -> Step<D> {
    match action_for(s.settings.mode, s.phase, key, held_ms) {
        Action::StartRecording => if model_unusable(s.model) {
            fail(s, MSG_MODEL_UNAVAILABLE@)
        } else {
            (
                ControllerView { pending: Pending::Open, ..s },
                seq![
                    EffectView::OpenCapture {
                        device: s.settings.input_device,
                        max_secs: s.settings.max_recording_secs,
                    },
                ],
            )
        },
        Action::StopAndTranscribe => stop_and_submit(s),
        Action::Cancel => if s.mic_open {
            let (t, e) = set_phase(ControllerView { mic_open: false, ..s }, Phase::Idle, None);
            (t, seq![EffectView::DiscardCapture] + e)
        } else {
            set_phase(s, Phase::Idle, None)
        },
        Action::Nothing => if s.phase == Phase::Processing && key == KeyEvent::Pressed {
            (s, seq![emit(Phase::Processing, Some(MSG_BUSY@))])
        } else {
            (s, Seq::empty())
        },
    }
}

/// The response to the microphone having opened, or having failed to.
pub open spec fn opened_step<D>(s: ControllerView<D>, outcome: Result<(), AudioError>) -> Step<D> {
    let s = ControllerView { pending: Pending::Nothing, ..s };
    match outcome {
        Ok(()) => (
            ControllerView {
                mic_open: true,
                session: (s.session + 1) as u64,
                phase: Phase::Recording,
                ..s
            },
            seq![
                emit(Phase::Recording, None),
                EffectView::ArmTimeLimit {
                    session: (s.session + 1) as u64,
                    secs: s.settings.max_recording_secs,
                },
            ],
        ),
        Err(e) => fail(s, MSG_MIC_PREFIX@ + e.message_view()),
    }
}

/// The response to the microphone having closed, or having failed to.
pub open spec fn closed_step<D>(s: ControllerView<D>, outcome: Result<(), AudioError>) -> Step<D> {
    match outcome {
        Ok(()) => (ControllerView { pending: Pending::Send, ..s }, seq![EffectView::SendJob]),
        Err(e) => fail(ControllerView { pending: Pending::Nothing, ..s }, MSG_MIC_PREFIX@ + e.message_view()),
    }
}

/// The response to the audio having reached the worker, or not.
pub open spec fn sent_step<D>(s: ControllerView<D>, delivered: bool) -> Step<D> {
    let s = ControllerView { pending: Pending::Nothing, ..s };
    if delivered {
        set_phase(s, Phase::Processing, None)
    } else {
        fail(s, MSG_WORKER_GONE@)
    }
}

/// The response to a recording's time limit: only the recording that set
/// it, if it is still going, is stopped.
pub open spec fn time_limit_step<D>(s: ControllerView<D>, session: u64) -> Step<D> {
    if s.session == session && s.phase == Phase::Recording {
        stop_and_submit(s)
    } else {
        (s, Seq::empty())
    }
}

/// The response to a transcription's outcome: a result, nothing to
/// transcribe (`Ok(None)`), or a failure.
pub open spec fn done_step<D>(s: ControllerView<D>, outcome: Result<Option<D>, Seq<char>>) -> Step<D> {
    match outcome {
        Ok(Some(r)) => {
            let (t, e) = set_phase(
                ControllerView { last_result: Some(r), last_error: None, ..s },
                Phase::Idle,
                None,
            );
            (
                t,
                e + seq![EffectView::PublishResult] + if s.settings.show_result_window {
                    seq![EffectView::ShowMainWindow]
                } else {
                    Seq::empty()
                },
            )
        },
        Ok(None) => set_phase(s, Phase::Idle, Some(MSG_NO_SPEECH@)),
        Err(m) => fail(s, m),
    }
}

/// The state can be trusted: a recording phase has the microphone open,
/// a processing phase has it closed, and a step in flight matches the phase.
pub open spec fn consistent<D>(s: ControllerView<D>) -> bool {
    match s.pending {
        Pending::Nothing => {
            &&& s.phase == Phase::Recording ==> s.mic_open
            &&& s.phase == Phase::Processing ==> !s.mic_open
        },
        Pending::Open => s.phase == Phase::Idle,
        Pending::Close => s.phase == Phase::Recording && !s.mic_open,
        Pending::Send => s.phase == Phase::Recording && !s.mic_open,
    }
}

/// A consistent state that awaits no outcome: ready for the next event.
pub open spec fn settled<D>(s: ControllerView<D>) -> bool {
    consistent(s) && s.pending == Pending::Nothing
}

fn state_event(phase: Phase, message: Option<String>) -> (e: Effect)
    ensures
        e@ == emit(phase, opt_view(message)),
{
    Effect::Emit(StateEvent { phase, message })
}

fn text(s: &str) -> (r: String)
    ensures
        r@ == s@,
{
    s.to_string()
}

impl<D> Controller<D> {
    /// The controller at launch: idle, model loading, nothing recorded yet.
    pub fn new(settings: Settings) -> (c: Self)
        ensures
            c@ == (ControllerView::<D> {
                settings: settings@,
                phase: Phase::Idle,
                mic_open: false,
                pending: Pending::Nothing,
                session: 0,
                model: ModelView::Loading,
                last_result: None,
                last_error: None,
            }),
            settled(c@),
    {
        Controller {
            settings,
            phase: Phase::Idle,
            mic_open: false,
            pending: Pending::Nothing,
            session: 0,
            model: ModelStatus::Loading,
            last_result: None,
            last_error: None,
        }
    }

    /// The settings the controller runs with.
    pub fn settings(&self) -> (s: &Settings)
        ensures
            s@ == self@.settings,
    {
        &self.settings
    }

    /// The current phase.
    pub fn phase(&self) -> (p: Phase)
        ensures
            p == self@.phase,
    {
        self.phase
    }

    /// The model's status.
    pub fn model(&self) -> (m: &ModelStatus)
        ensures
            m@ == self@.model,
    {
        &self.model
    }

    /// The last transcription's result, if any.
    pub fn last_result(&self) -> (r: &Option<D>)
        ensures
            *r == self@.last_result,
    {
        &self.last_result
    }

    /// The last error shown, if any.
    pub fn last_error(&self) -> (e: Option<String>)
        ensures
            opt_view(e) == self@.last_error,
    {
        match &self.last_error {
            Some(m) => Some(m.clone()),
            None => None,
        }
    }

    /// A copy of what the windows show.
    pub fn snapshot(&self) -> (snap: StatusSnapshot<D>) where D: Clone
        ensures
            snap.phase == self@.phase,
            snap.model@ == self@.model,
            snap.settings@ == self@.settings,
            opt_view(snap.last_error) == self@.last_error,
            self@.last_result is None ==> snap.last_result is None,
            self@.last_result matches Some(a) ==> (snap.last_result matches Some(b) && cloned(a, b)),
    {
        StatusSnapshot {
            phase: self.phase,
            model: self.model.duplicate(),
            settings: self.settings.duplicate(),
            last_result: self.last_result.clone(),
            last_error: self.last_error(),
        }
    }

    /// The recording that the time limit refers to.
    pub fn session(&self) -> (n: u64)
        ensures
            n == self@.session,
    {
        self.session
    }

    fn do_fail(&mut self, message: String) -> (effects: Vec<Effect>)
        ensures
            (final(self)@, effects_view(effects@)) == fail(old(self)@, message@),
    {
        let event = state_event(Phase::Idle, Some(message.clone()));
        self.last_error = Some(message);
        self.phase = Phase::Idle;
        let mut effects = Vec::new();
        effects.push(event);
        proof {
            assert(effects_view(effects@) =~= seq![emit(Phase::Idle, Some(message@))]);
        }
        effects
    }

    fn do_set_phase(&mut self, phase: Phase, message: Option<String>, effects: &mut Vec<Effect>)
        ensures
            final(self)@ == set_phase(old(self)@, phase, opt_view(message)).0,
            effects_view(final(effects)@) == effects_view(old(effects)@) + set_phase(
                old(self)@,
                phase,
                opt_view(message),
            ).1,
    {
        self.phase = phase;
        let ghost before = effects@;
        effects.push(state_event(phase, message));
        proof {
            assert(effects_view(effects@) =~= effects_view(before) + seq![
                emit(phase, opt_view(message)),
            ]);
        }
    }

    fn do_stop_and_submit(&mut self) -> (effects: Vec<Effect>)
        ensures
            (final(self)@, effects_view(effects@)) == stop_and_submit(old(self)@),
    {
        let mut effects = Vec::new();
        if self.mic_open {
            self.mic_open = false;
            self.pending = Pending::Close;
            effects.push(Effect::CloseCapture);
            proof {
                assert(effects_view(effects@) =~= seq![EffectView::CloseCapture]);
            }
        } else {
            self.do_set_phase(Phase::Idle, None, &mut effects);
            proof {
                assert(effects_view(Seq::<Effect>::empty()) =~= Seq::<EffectView>::empty());
                assert(Seq::<EffectView>::empty() + set_phase(old(self)@, Phase::Idle, None).1
                    =~= set_phase(old(self)@, Phase::Idle, None).1);
            }
        }
        effects
    }

    /// A key event of the global shortcut. `held_for`: how long the current
    /// recording has lasted, if there is one.
    pub fn on_key(&mut self, key: KeyEvent, held_for: Option<Duration>) -> (effects: Vec<Effect>)
        requires
            settled(old(self)@),
        ensures
            (final(self)@, effects_view(effects@)) == key_step(old(self)@, key, held_millis(held_for)),
            consistent(final(self)@),
    {
        let action = on_key(self.settings.mode, self.phase, key, held_for);
        match action {
            Action::StartRecording => {
                if matches!(self.model, ModelStatus::Missing { .. }) || matches!(self.model, ModelStatus::Failed { .. }) {
                    return self.do_fail(text(MSG_MODEL_UNAVAILABLE));
                }
                self.pending = Pending::Open;
                let device = match &self.settings.input_device {
                    Some(d) => Some(d.clone()),
                    None => None,
                };
                let mut effects = Vec::new();
                effects.push(
                    Effect::OpenCapture { device, max_secs: self.settings.max_recording_secs },
                );
                proof {
                    assert(effects_view(effects@) =~= seq![
                        EffectView::OpenCapture {
                            device: old(self)@.settings.input_device,
                            max_secs: old(self)@.settings.max_recording_secs,
                        },
                    ]);
                }
                effects
            },
            Action::StopAndTranscribe => self.do_stop_and_submit(),
            Action::Cancel => {
                let mut effects = Vec::new();
                if self.mic_open {
                    self.mic_open = false;
                    effects.push(Effect::DiscardCapture);
                }
                let ghost mid = effects@;
                self.do_set_phase(Phase::Idle, None, &mut effects);
                proof {
                    if old(self)@.mic_open {
                        assert(effects_view(mid) =~= seq![EffectView::DiscardCapture]);
                    } else {
                        assert(effects_view(mid) =~= Seq::<EffectView>::empty());
                        assert(Seq::<EffectView>::empty() + set_phase(old(self)@, Phase::Idle, None).1
                            =~= set_phase(old(self)@, Phase::Idle, None).1);
                    }
                }
                effects
            },
            Action::Nothing => {
                let mut effects = Vec::new();
                if self.phase == Phase::Processing && key == KeyEvent::Pressed {
                    effects.push(state_event(Phase::Processing, Some(text(MSG_BUSY))));
                    proof {
                        assert(effects_view(effects@) =~= seq![
                            emit(Phase::Processing, Some(MSG_BUSY@)),
                        ]);
                    }
                } else {
                    proof {
                        assert(effects_view(effects@) =~= Seq::<EffectView>::empty());
                    }
                }
                effects
            },
        }
    }

    /// The microphone has opened (`Ok`), or could not be opened.
    pub fn capture_opened(&mut self, outcome: Result<(), AudioError>) -> (effects: Vec<Effect>)
        requires
            consistent(old(self)@),
            old(self)@.pending == Pending::Open,
            outcome is Ok ==> old(self)@.session < u64::MAX,
        ensures
            (final(self)@, effects_view(effects@)) == opened_step(old(self)@, outcome),
            settled(final(self)@),
    {
        self.pending = Pending::Nothing;
        match outcome {
            Ok(()) => {
                self.mic_open = true;
                self.session = self.session + 1;
                let mut effects = Vec::new();
                proof {
                    assert(effects_view(effects@) =~= Seq::<EffectView>::empty());
                }
                self.do_set_phase(Phase::Recording, None, &mut effects);
                let ghost e1 = effects@;
                assert(effects_view(e1) =~= seq![emit(Phase::Recording, None)]);
                effects.push(
                    Effect::ArmTimeLimit {
                        session: self.session,
                        secs: self.settings.max_recording_secs,
                    },
                );
                proof {
                    assert(effects@[0] == e1[0]);
                    assert(effects_view(e1)[0] == e1[0]@);
                    assert(effects_view(effects@) =~= seq![
                        emit(Phase::Recording, None),
                        EffectView::ArmTimeLimit {
                            session: (old(self)@.session + 1) as u64,
                            secs: old(self)@.settings.max_recording_secs,
                        },
                    ]);
                }
                effects
            },
            Err(e) => {
                let mut m = text(MSG_MIC_PREFIX);
                m.append(e.message().as_str());
                self.do_fail(m)
            },
        }
    }

    /// The microphone has closed with its audio (`Ok`), or failed to.
    pub fn capture_closed(&mut self, outcome: Result<(), AudioError>) -> (effects: Vec<Effect>)
        requires
            consistent(old(self)@),
            old(self)@.pending == Pending::Close,
        ensures
            (final(self)@, effects_view(effects@)) == closed_step(old(self)@, outcome),
            consistent(final(self)@),
    {
        match outcome {
            Ok(()) => {
                self.pending = Pending::Send;
                let mut effects = Vec::new();
                effects.push(Effect::SendJob);
                proof {
                    assert(effects_view(effects@) =~= seq![EffectView::SendJob]);
                }
                effects
            },
            Err(e) => {
                self.pending = Pending::Nothing;
                let mut m = text(MSG_MIC_PREFIX);
                m.append(e.message().as_str());
                self.do_fail(m)
            },
        }
    }

    /// The audio reached the worker (`true`), or the worker is gone.
    pub fn job_sent(&mut self, delivered: bool) -> (effects: Vec<Effect>)
        requires
            consistent(old(self)@),
            old(self)@.pending == Pending::Send,
        ensures
            (final(self)@, effects_view(effects@)) == sent_step(old(self)@, delivered),
            settled(final(self)@),
    {
        self.pending = Pending::Nothing;
        if delivered {
            let mut effects = Vec::new();
            self.do_set_phase(Phase::Processing, None, &mut effects);
            proof {
                let s = ControllerView { pending: Pending::Nothing, ..old(self)@ };
                assert(effects_view(Seq::<Effect>::empty()) =~= Seq::<EffectView>::empty());
                assert(Seq::<EffectView>::empty() + set_phase(s, Phase::Processing, None).1
                    =~= set_phase(s, Phase::Processing, None).1);
            }
            effects
        } else {
            self.do_fail(text(MSG_WORKER_GONE))
        }
    }

    /// The time limit armed for recording number `session` has expired.
    pub fn on_time_limit(&mut self, session: u64) -> (effects: Vec<Effect>)
        requires
            settled(old(self)@),
        ensures
            (final(self)@, effects_view(effects@)) == time_limit_step(old(self)@, session),
            consistent(final(self)@),
    {
        if self.session == session && self.phase == Phase::Recording {
            self.do_stop_and_submit()
        } else {
            let effects = Vec::new();
            proof {
                assert(effects_view(effects@) =~= Seq::<EffectView>::empty());
            }
            effects
        }
    }

    /// The model has finished loading, or failed to.
    pub fn model_loaded(&mut self, status: ModelStatus) -> (effects: Vec<Effect>)
        requires
            settled(old(self)@),
        ensures
            final(self)@ == (ControllerView { model: status@, ..old(self)@ }),
            effects_view(effects@) == seq![emit(old(self)@.phase, None)],
            settled(final(self)@),
    {
        self.model = status;
        let mut effects = Vec::new();
        effects.push(state_event(self.phase, None));
        proof {
            assert(effects_view(effects@) =~= seq![emit(old(self)@.phase, None)]);
        }
        effects
    }

    /// The transcription thread could not be started.
    pub fn worker_not_started(&mut self, reason: &str)
        requires
            settled(old(self)@),
        ensures
            final(self)@ == (ControllerView {
                model: ModelView::Failed { message: MSG_WORKER_NOT_STARTED@ + reason@ },
                ..old(self)@
            }),
            settled(final(self)@),
    {
        let mut m = text(MSG_WORKER_NOT_STARTED);
        m.append(reason);
        self.model = ModelStatus::Failed { message: m };
    }

    /// A dictation has been processed: its result, nothing to transcribe
    /// (`Ok(None)`), or a failure.
    pub fn job_done(&mut self, outcome: Result<Option<D>, String>) -> (effects: Vec<Effect>)
        requires
            settled(old(self)@),
        ensures
            (final(self)@, effects_view(effects@)) == done_step(
                old(self)@,
                match outcome {
                    Ok(r) => Ok(r),
                    Err(m) => Err(m@),
                },
            ),
            consistent(final(self)@),
    {
        match outcome {
            Ok(Some(r)) => {
                self.last_result = Some(r);
                self.last_error = None;
                let mut effects = Vec::new();
                let ghost s1 = self@;
                self.do_set_phase(Phase::Idle, None, &mut effects);
                let ghost e1 = effects@;
                effects.push(Effect::PublishResult);
                if self.settings.show_result_window {
                    effects.push(Effect::ShowMainWindow);
                }
                proof {
                    assert(effects_view(e1) =~= set_phase(s1, Phase::Idle, None).1);
                    if old(self)@.settings.show_result_window {
                        assert(effects_view(effects@) =~= set_phase(s1, Phase::Idle, None).1 + seq![
                            EffectView::PublishResult,
                        ] + seq![EffectView::ShowMainWindow]);
                    } else {
                        assert(effects_view(effects@) =~= set_phase(s1, Phase::Idle, None).1 + seq![
                            EffectView::PublishResult,
                        ] + Seq::<EffectView>::empty());
                    }
                }
                effects
            },
            Ok(None) => {
                let mut effects = Vec::new();
                self.do_set_phase(Phase::Idle, Some(text(MSG_NO_SPEECH)), &mut effects);
                proof {
                    assert(effects_view(Seq::<Effect>::empty()) =~= Seq::<EffectView>::empty());
                    assert(Seq::<EffectView>::empty() + set_phase(
                        old(self)@,
                        Phase::Idle,
                        Some(MSG_NO_SPEECH@),
                    ).1 =~= set_phase(old(self)@, Phase::Idle, Some(MSG_NO_SPEECH@)).1);
                }
                effects
            },
            Err(m) => self.do_fail(m),
        }
    }

    /// A start-up error (settings, shortcut) to show in the window.
    pub fn report_error(&mut self, message: String) -> (effects: Vec<Effect>)
        requires
            settled(old(self)@),
        ensures
            (final(self)@, effects_view(effects@)) == fail(old(self)@, message@),
            consistent(final(self)@),
    {
        self.do_fail(message)
    }
}

/// While a dictation is being processed, keys change nothing: a press
/// only reminds the indicator that work is under way.
pub proof fn lemma_busy_keys_change_nothing<D>(s: ControllerView<D>, key: KeyEvent, held_ms: Option<int>)
    requires
        settled(s),
        s.phase == Phase::Processing,
    ensures
        key_step(s, key, held_ms).0 == s,
        key_step(s, key, held_ms).1 == if key == KeyEvent::Pressed {
            seq![emit(Phase::Processing, Some(MSG_BUSY@))]
        } else {
            Seq::<EffectView>::empty()
        },
{
}

/// A time limit stops only the recording that armed it, and only while
/// that recording is still going; otherwise it changes nothing.
pub proof fn lemma_time_limit_spares_other_sessions<D>(s: ControllerView<D>, session: u64)
    requires
        session != s.session || s.phase != Phase::Recording,
    ensures
        time_limit_step(s, session) == (s, Seq::<EffectView>::empty()),
{
}

/// Every event keeps the controller consistent: recording means the
/// microphone is open, processing means it is closed.
pub proof fn lemma_events_keep_consistency<D>(
    s: ControllerView<D>,
    key: KeyEvent,
    held_ms: Option<int>,
    outcome: Result<(), AudioError>,
    delivered: bool,
    session: u64,
    done: Result<Option<D>, Seq<char>>,
    message: Seq<char>,
)
    ensures
        settled(s) ==> consistent(key_step(s, key, held_ms).0),
        settled(s) ==> consistent(time_limit_step(s, session).0),
        settled(s) ==> consistent(done_step(s, done).0),
        settled(s) ==> consistent(fail(s, message).0),
        consistent(s) && s.pending == Pending::Open ==> settled(opened_step(s, outcome).0),
        consistent(s) && s.pending == Pending::Close ==> consistent(closed_step(s, outcome).0),
        consistent(s) && s.pending == Pending::Send ==> settled(sent_step(s, delivered).0),
{
}

/// The session number counts the recordings that started: it grows by one
/// when the microphone opens and no other event changes it.
pub proof fn lemma_session_counts_recordings<D>(
    s: ControllerView<D>,
    key: KeyEvent,
    held_ms: Option<int>,
    outcome: Result<(), AudioError>,
    delivered: bool,
    session: u64,
    done: Result<Option<D>, Seq<char>>,
)
    requires
        outcome is Ok ==> s.session < u64::MAX,
    ensures
        opened_step(s, outcome).0.session == if outcome is Ok {
            s.session + 1
        } else {
            s.session as int
        },
        key_step(s, key, held_ms).0.session == s.session,
        closed_step(s, outcome).0.session == s.session,
        sent_step(s, delivered).0.session == s.session,
        time_limit_step(s, session).0.session == s.session,
        done_step(s, done).0.session == s.session,
{
}

/// A failure always brings the controller back to idle, keeps the message
/// as the last error and shows it, and leaves the microphone as it was.
pub proof fn lemma_failure_is_shown<D>(s: ControllerView<D>, message: Seq<char>)
    ensures
        fail(s, message).0.phase == Phase::Idle,
        fail(s, message).0.last_error == Some(message),
        fail(s, message).0.mic_open == s.mic_open,
        fail(s, message).1 == seq![emit(Phase::Idle, Some(message))],
{
}

/// A finished dictation becomes the last result, clears the last error,
/// returns to idle and is published, after the idle state is shown.
pub proof fn lemma_result_is_published<D>(s: ControllerView<D>, r: D)
    ensures
        done_step(s, Ok(Some(r))).0.last_result == Some(r),
        done_step(s, Ok(Some(r))).0.last_error is None,
        done_step(s, Ok(Some(r))).0.phase == Phase::Idle,
        done_step(s, Ok(Some(r))).1[0] == emit(Phase::Idle, None),
        done_step(s, Ok(Some(r))).1[1] == EffectView::PublishResult,
        done_step(s, Ok(Some(r))).1.len() == if s.settings.show_result_window {
            3int
        } else {
            2int
        },
{
}

/// When the microphone opens, the time limit is armed for this recording
/// and for the configured longest dictation, whatever that is; the
/// settings are left as they were.
pub proof fn lemma_time_limit_is_configured<D>(s: ControllerView<D>)
    ensures
        opened_step(s, Ok(())).1.len() == 2,
        opened_step(s, Ok(())).1[1] == (EffectView::ArmTimeLimit {
            session: (s.session + 1) as u64,
            secs: s.settings.max_recording_secs,
        }),
        opened_step(s, Ok(())).0.settings == s.settings,
        opened_step(s, Ok(())).0.session == (s.session + 1) as u64,
{
}

} // verus!
