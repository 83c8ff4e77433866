//! User settings: their values, their defaults and the rules they must meet.
//! Reading and writing `settings.json` is done around the library.
use vstd::prelude::*;
use vstd::string::StringExecFns;

use crate::text::{chars_of, is_all_blank, is_blank};

verus! {

/// Name of the settings file in the application's configuration folder.
pub const SETTINGS_FILE: &'static str = "settings.json";

/// Why the settings could not be had.
#[derive(Debug, PartialEq, Eq)]
pub enum SettingsError {
    /// The file could not be read or written (its path, the system's message).
    Io { path: String, message: String },
    /// The file is not valid settings JSON (its path, the parser's message).
    Parse { path: String, message: String },
    /// A setting breaks a rule (which one).
    Invalid(String),
}

impl SettingsError {
    /// The text shown for this error.
    pub open spec fn message_view(&self) -> Seq<char> {
        match self {
            SettingsError::Io { path, message } => "lecture/écriture de "@ + path@ + " impossible : "@
                + message@,
            SettingsError::Parse { path, message } => path@ + " n'est pas un JSON de réglages valide : "@
                + message@,
            SettingsError::Invalid(m) => "réglage invalide : "@ + m@,
        }
    }

    /// The text shown for this error.
    pub fn message(&self) -> (r: String)
        ensures
            r@ == self.message_view(),
    {
        match self {
            SettingsError::Io { path, message } => {
                let mut r = "lecture/écriture de ".to_string();
                r.append(path.as_str());
                r.append(" impossible : ");
                r.append(message.as_str());
                r
            },
            SettingsError::Parse { path, message } => {
                let mut r = path.clone();
                r.append(" n'est pas un JSON de réglages valide : ");
                r.append(message.as_str());
                r
            },
            SettingsError::Invalid(m) => {
                let mut r = "réglage invalide : ".to_string();
                r.append(m.as_str());
                r
            },
        }
    }
}

/// How the shortcut drives a dictation.
#[derive(Debug, Clone, Copy, PartialEq, Eq, Structural)]
pub enum ShortcutMode {
    /// Hold the key while speaking.
    PushToTalk,
    /// Press once to start, once to stop.
    Toggle,
}

/// The user's settings.
#[derive(Debug, Clone, PartialEq)]
pub struct Settings {
    /// Shortcut in the global-shortcut syntax: "Alt+Space", "CmdOrCtrl+Shift+D",
    /// "F13"… A pedal or hardware button that sends F13–F20 works as is.
    pub shortcut: String,
    pub mode: ShortcutMode,
    /// File name of the speech model, looked up in `<app data>/models/`.
    pub whisper_model: String,
    /// ISO 639-1 language code imposed on the model (no detection).
    pub language: String,
    /// Microphone name; `None` is the system's default input.
    pub input_device: Option<String>,
    /// Longest dictation; beyond it the recording stops by itself.
    pub max_recording_secs: u32,
    /// Shows the result window after each dictation.
    pub show_result_window: bool,
}

/// The settings as plain values.
pub struct SettingsView {
    pub shortcut: Seq<char>,
    pub mode: ShortcutMode,
    pub whisper_model: Seq<char>,
    pub language: Seq<char>,
    pub input_device: Option<Seq<char>>,
    pub max_recording_secs: u32,
    pub show_result_window: bool,
}

/// The view of an optional text.
pub open spec fn opt_view(o: Option<String>) -> Option<Seq<char>> {
    match o {
        Some(s) => Some(s@),
        None => None,
    }
}

impl View for Settings {
    type V = SettingsView;

    open spec fn view(&self) -> SettingsView {
        SettingsView {
            shortcut: self.shortcut@,
            mode: self.mode,
            whisper_model: self.whisper_model@,
            language: self.language@,
            input_device: opt_view(self.input_device),
            max_recording_secs: self.max_recording_secs,
            show_result_window: self.show_result_window,
        }
    }
}

/// The settings of a first launch.
pub open spec fn default_settings() -> SettingsView {
    SettingsView {
        shortcut: "Alt+Space"@,
        mode: ShortcutMode::PushToTalk,
        whisper_model: "ggml-large-v3-turbo-q5_0.bin"@,
        language: "fr"@,
        input_device: None,
        max_recording_secs: 120,
        show_result_window: true,
    }
}

impl Default for Settings {
    fn default() -> (s: Self)
        ensures
            s@ == default_settings(),
    {
        Settings {
            shortcut: "Alt+Space".to_string(),
            mode: ShortcutMode::PushToTalk,
            whisper_model: "ggml-large-v3-turbo-q5_0.bin".to_string(),
            language: "fr".to_string(),
            input_device: None,
            max_recording_secs: 120,
            show_result_window: true,
        }
    }
}

/// Shortest allowed `max_recording_secs`.
pub const MIN_RECORDING_SECS: u32 = 5;

/// Longest allowed `max_recording_secs`.
pub const MAX_RECORDING_SECS: u32 = 600;

pub const MSG_EMPTY_SHORTCUT: &'static str = "le raccourci est vide";

pub const MSG_BAD_DURATION: &'static str = "max_recording_secs doit être compris entre 5 et 600";

pub const MSG_BAD_LANGUAGE: &'static str = "code langue attendu sur 2 lettres minuscules, reçu ";

pub const MSG_BAD_MODEL: &'static str = "whisper_model doit être un simple nom de fichier .bin";

/// Two lower-case ASCII letters.
pub open spec fn is_language_code(l: Seq<char>) -> bool {
    l.len() == 2 && forall|i: int| 0 <= i < l.len() ==> 0x61 <= (#[trigger] l[i]) as u32 <= 0x7a
}

/// `s` ends with `suffix`.
pub open spec fn ends_with(s: Seq<char>, suffix: Seq<char>) -> bool {
    s.len() >= suffix.len() && s.subrange(s.len() - suffix.len(), s.len() as int) == suffix
}

/// Reading a path from left to right: the parts between slashes already
/// closed, and the part under way.
pub open spec fn slash_scan(s: Seq<char>) -> (Seq<Seq<char>>, Seq<char>)
    decreases s.len(),
{
    if s.len() == 0 {
        (Seq::empty(), Seq::empty())
    } else {
        let (done, cur) = slash_scan(s.drop_last());
        if s.last() == '/' {
            (done.push(cur), Seq::empty())
        } else {
            (done, cur.push(s.last()))
        }
    }
}

/// The parts of a path between its slashes, empty ones included.
pub open spec fn slash_parts(s: Seq<char>) -> Seq<Seq<char>> {
    slash_scan(s).0.push(slash_scan(s).1)
}

/// A part that names something: neither empty nor `.`.
pub open spec fn is_named_part(p: Seq<char>) -> bool {
    p.len() > 0 && p != seq!['.']
}

/// How many parts of `ps` name something.
pub open spec fn named_parts(ps: Seq<Seq<char>>) -> nat
    decreases ps.len(),
{
    if ps.len() == 0 {
        0
    } else {
        named_parts(ps.drop_last()) + if is_named_part(ps.last()) {
            1nat
        } else {
            0nat
        }
    }
}

/// How many components `Path::components` yields for a Unix path, as its
/// documentation describes them: a root for a leading slash, a current
/// directory for a leading `.` part, then one per part between slashes,
/// repeated slashes and `.` parts elsewhere being skipped.
pub open spec fn path_components(s: Seq<char>) -> nat {
    let root: nat = if s.len() > 0 && s[0] == '/' {
        1
    } else {
        0
    };
    let cur_dir: nat = if slash_parts(s)[0] == seq!['.'] {
        1
    } else {
        0
    };
    root + cur_dir + named_parts(slash_parts(s))
}

/// `Path::new(s).components().count()`. The std documentation describes the
/// components as `path_components` counts them (Unix paths: no prefix).
#[verifier::external_body]
fn component_count(s: &str) -> (n: usize)
    ensures
        n == path_components(s@),
{
    std::path::Path::new(s).components().count()
}

/// A plain `.bin` file name: one path component, ending in `.bin`.
pub open spec fn is_model_file_name(m: Seq<char>) -> bool {
    path_components(m) == 1 && ends_with(m, ".bin"@)
}

/// A text's `Debug` form (quoted and escaped), as `format!("{:?}", s)` gives it.
pub uninterp spec fn debug_text(s: Seq<char>) -> Seq<char>;

/// `format!("{:?}", s)` on a string slice. Named, not restated: the escape
/// rules of `char::escape_debug` rest on Unicode tables.
#[verifier::external_body]
fn debug_string(s: &str) -> (r: String)
    ensures
        r@ == debug_text(s@),
{
    format!("{:?}", s)
}

/// The first rule that the settings break, as its message, or `None`.
pub open spec fn settings_problem(s: SettingsView) -> Option<Seq<char>> {
    if is_all_blank(s.shortcut) {
        Some(MSG_EMPTY_SHORTCUT@)
    } else if !(MIN_RECORDING_SECS <= s.max_recording_secs <= MAX_RECORDING_SECS) {
        Some(MSG_BAD_DURATION@)
    } else if !is_language_code(s.language) {
        Some(MSG_BAD_LANGUAGE@ + debug_text(s.language))
    } else if !is_model_file_name(s.whisper_model) {
        Some(MSG_BAD_MODEL@)
    } else {
        None
    }
}

fn language_ok(l: &str) -> (b: bool)
    ensures
        b == is_language_code(l@),
{
    let v = chars_of(l);
    if v.len() != 2 {
        return false;
    }
    let mut i: usize = 0;
    while i < v.len()
        invariant
            i <= v.len(),
            v@ == l@,
            v@.len() == 2,
            forall|k: int| 0 <= k < i ==> 0x61 <= (#[trigger] v@[k]) as u32 <= 0x7a,
        decreases v.len() - i,
    {
        let u = v[i] as u32;
        if u < 0x61 || u > 0x7a {
            return false;
        }
        i = i + 1;
    }
    true
}

fn ends_with_chars(s: &Vec<char>, suffix: &Vec<char>) -> (b: bool)
    ensures
        b == ends_with(s@, suffix@),
{
    if s.len() < suffix.len() {
        return false;
    }
    let start = s.len() - suffix.len();
    let mut k: usize = 0;
    while k < suffix.len()
        invariant
            k <= suffix.len(),
            start + suffix.len() == s.len(),
            forall|j: int| 0 <= j < k ==> s@[start + j] == suffix@[j],
        decreases suffix.len() - k,
    {
        if s[start + k] != suffix[k] {
            assert(s@.subrange(start as int, s.len() as int)[k as int] != suffix@[k as int]);
            return false;
        }
        k = k + 1;
    }
    assert(s@.subrange(start as int, s.len() as int) == suffix@);
    true
}

impl Settings {
    /// The same settings, in a new value.
    pub fn duplicate(&self) -> (r: Self)
        ensures
            r@ == self@,
    {
        Settings {
            shortcut: self.shortcut.clone(),
            mode: self.mode,
            whisper_model: self.whisper_model.clone(),
            language: self.language.clone(),
            input_device: match &self.input_device {
                Some(d) => Some(d.clone()),
                None => None,
            },
            max_recording_secs: self.max_recording_secs,
            show_result_window: self.show_result_window,
        }
    }

    /// Checks the rules in order and reports the first one broken.
    pub fn validate(&self) -> (r: Result<(), SettingsError>)
        ensures
            r is Ok <==> settings_problem(self@) is None,
            r matches Err(e) ==> (e matches SettingsError::Invalid(m) && Some(m@) == settings_problem(
                self@,
            )),
    {
        if is_blank(self.shortcut.as_str()) {
            return Err(SettingsError::Invalid(MSG_EMPTY_SHORTCUT.to_string()));
        }
        if !(MIN_RECORDING_SECS <= self.max_recording_secs && self.max_recording_secs
            <= MAX_RECORDING_SECS) {
            return Err(SettingsError::Invalid(MSG_BAD_DURATION.to_string()));
        }
        if !language_ok(self.language.as_str()) {
            let mut m = MSG_BAD_LANGUAGE.to_string();
            let shown = debug_string(self.language.as_str());
            m.append(shown.as_str());
            return Err(SettingsError::Invalid(m));
        }
        let model = self.whisper_model.as_str();
        let one_component = component_count(model) == 1;
        let model_chars = chars_of(model);
        let suffix = chars_of(".bin");
        if !one_component || !ends_with_chars(&model_chars, &suffix) {
            return Err(SettingsError::Invalid(MSG_BAD_MODEL.to_string()));
        }
        Ok(())
    }
}

} // verus!

verus! {

proof fn lemma_slash_scan_append_plain(a: Seq<char>, w: Seq<char>)
    requires
        !w.contains('/'),
    ensures
        slash_scan(a + w) == (slash_scan(a).0, slash_scan(a).1 + w),
    decreases w.len(),
{
    if w.len() == 0 {
        assert(a + w == a);
        assert(slash_scan(a).1 + w == slash_scan(a).1);
    } else {
        let w0 = w.drop_last();
        assert(!w0.contains('/')) by {
            if w0.contains('/') {
                let k = choose|k: int| 0 <= k < w0.len() && w0[k] == '/';
                assert(w[k] == '/');
            }
        }
        lemma_slash_scan_append_plain(a, w0);
        assert((a + w).drop_last() == a + w0);
        assert((a + w).last() == w.last());
        assert(w[w.len() - 1] != '/');
        assert((slash_scan(a).1 + w0).push(w.last()) == slash_scan(a).1 + w);
    }
}

proof fn lemma_slash_scan_closes_on_slash(s: Seq<char>)
    requires
        s.contains('/'),
    ensures
        slash_scan(s).0.len() >= 1,
    decreases s.len(),
{
    if s.last() != '/' {
        let k = choose|k: int| 0 <= k < s.len() && s[k] == '/';
        assert(s.drop_last()[k] == '/');
        lemma_slash_scan_closes_on_slash(s.drop_last());
    }
}

proof fn lemma_first_part_starts(s: Seq<char>)
    requires
        s.len() > 0,
        s[0] != '/',
    ensures
        slash_parts(s)[0].len() > 0,
        slash_parts(s)[0][0] == s[0],
    decreases s.len(),
{
    if s.len() == 1 {
        assert(s.drop_last() == Seq::<char>::empty());
        assert(slash_scan(s.drop_last()) == (Seq::<Seq<char>>::empty(), Seq::<char>::empty()));
        assert(s.last() == s[0]);
        assert(slash_scan(s) == (Seq::<Seq<char>>::empty(), seq![s[0]]));
        assert(slash_parts(s)[0] == seq![s[0]]);
    } else {
        let p = s.drop_last();
        assert(p[0] == s[0]);
        lemma_first_part_starts(p);
        let (done, cur) = slash_scan(p);
        assert(slash_parts(p) == done.push(cur));
        if s.last() == '/' {
            assert(slash_scan(s) == (done.push(cur), Seq::<char>::empty()));
            assert(done.push(cur).push(Seq::<char>::empty())[0] == done.push(cur)[0]);
        } else {
            assert(slash_scan(s) == (done, cur.push(s.last())));
            if done.len() > 0 {
                assert(done.push(cur.push(s.last()))[0] == done[0]);
                assert(done.push(cur)[0] == done[0]);
            } else {
                assert(done.push(cur)[0] == cur);
                assert(cur.push(s.last())[0] == cur[0]);
            }
        }
    }
}

proof fn lemma_named_parts_first(ps: Seq<Seq<char>>)
    requires
        ps.len() >= 1,
    ensures
        named_parts(ps) >= if is_named_part(ps[0]) {
            1nat
        } else {
            0nat
        },
    decreases ps.len(),
{
    if ps.len() > 1 {
        assert(ps.drop_last()[0] == ps[0]);
        lemma_named_parts_first(ps.drop_last());
    } else {
        assert(ps.drop_last().len() == 0);
    }
}

/// A model name is accepted exactly when it ends in `.bin` and holds no
/// slash: a name that reaches into another directory is always refused.
pub proof fn lemma_model_name_is_plain_file_name(m: Seq<char>)
    ensures
        is_model_file_name(m) <==> (ends_with(m, ".bin"@) && !m.contains('/')),
{
    reveal_strlit(".bin");
    if ends_with(m, ".bin"@) {
        let n = m.len();
        let tail = m.subrange(n - 4, n as int);
        let head = m.subrange(0, n - 4);
        assert(head + tail == m);
        assert(tail == ".bin"@);
        assert(!tail.contains('/')) by {
            if tail.contains('/') {
                let k = choose|k: int| 0 <= k < tail.len() && tail[k] == '/';
                assert(tail[k] == ".bin"@[k]);
            }
        }
        lemma_slash_scan_append_plain(head, tail);
        let (done, cur) = slash_scan(m);
        assert(cur == slash_scan(head).1 + tail);
        assert(cur.len() >= 4);
        assert(cur.last() == 'n');
        assert(is_named_part(cur)) by {
            if cur == seq!['.'] {
                assert(cur.len() == 1);
            }
        }
        let parts = slash_parts(m);
        assert(parts.last() == cur);
        assert(parts.drop_last() == done);
        if m.contains('/') {
            lemma_slash_scan_closes_on_slash(m);
            assert(parts.len() >= 2);
            lemma_named_parts_first(done);
            assert(done[0] == parts[0]);
            assert(named_parts(parts) == named_parts(done) + 1);
            if m[0] == '/' {
                assert(path_components(m) >= 2);
            } else {
                lemma_first_part_starts(m);
                if parts[0] == seq!['.'] {
                    assert(path_components(m) >= 2);
                } else {
                    assert(is_named_part(parts[0]));
                    assert(path_components(m) >= 2);
                }
            }
        } else {
            lemma_slash_scan_append_plain(Seq::<char>::empty(), m);
            assert(Seq::<char>::empty() + m == m);
            assert(done.len() == 0);
            assert(parts == seq![m]);
            assert(m[0] != '/') by {
                if m[0] == '/' {
                    assert(m.contains('/'));
                }
            }
            assert(parts.drop_last().len() == 0);
            assert(named_parts(parts) == 1);
            assert(path_components(m) == 1);
        }
    }
}

/// A language code is two characters, each a letter from 'a' to 'z'
/// inclusive: "ja", "ar", "az" are accepted; an upper-case letter, '`'
/// (just before 'a') or '{' (just after 'z') is not.
pub proof fn lemma_language_code_letters(c1: char, c2: char, l: Seq<char>)
    ensures
        is_language_code(seq![c1, c2]) <==> ('a' <= c1 && c1 <= 'z' && 'a' <= c2 && c2 <= 'z'),
        is_language_code(l) ==> l.len() == 2,
{
    let s = seq![c1, c2];
    assert(s[0] == c1 && s[1] == c2);
}

/// Once the shortcut and the duration pass, the settings are refused for
/// their language exactly when it is not a language code, and the message
/// then shows the language.
pub proof fn lemma_language_rule(s: SettingsView)
    requires
        !is_all_blank(s.shortcut),
        MIN_RECORDING_SECS <= s.max_recording_secs <= MAX_RECORDING_SECS,
    ensures
        !is_language_code(s.language) ==> settings_problem(s) == Some(MSG_BAD_LANGUAGE@ + debug_text(s.language)),
        is_language_code(s.language) ==> settings_problem(s) != Some(MSG_BAD_LANGUAGE@ + debug_text(s.language)),
{
    reveal_strlit("code langue attendu sur 2 lettres minuscules, reçu ");
    reveal_strlit("whisper_model doit être un simple nom de fichier .bin");
    if is_language_code(s.language) && is_model_file_name(s.whisper_model) == false {
        let m = MSG_BAD_LANGUAGE@ + debug_text(s.language);
        assert(m[0] == 'c');
        assert(MSG_BAD_MODEL@[0] == 'w');
    }
}

} // verus!
