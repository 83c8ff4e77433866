//! The text side of transcription: what is asked of the speech model and
//! what is kept of its answer.
use vstd::prelude::*;
use vstd::string::StringExecFns;

use crate::text::{
    chars_of, is_blank_free, is_white_space, join_words, lemma_normalize_keeps_words, lemma_scan_shape,
    lemma_words_of_join, lemma_words_of_spaced_concat, normalize, normalize_chars, push_char, scan,
    white_space, words,
};
use crate::audio::dsp::WHISPER_SAMPLE_RATE;

verus! {

/// Why a transcription could not be had.
#[derive(Debug, PartialEq, Eq)]
pub enum SttError {
    /// The model file is not there (its path).
    ModelMissing(String),
    /// The model could not be loaded (the loader's message).
    Load(String),
    /// Inference failed (the engine's message).
    Inference(String),
}

impl SttError {
    /// The text shown for this error.
    pub open spec fn message_view(&self) -> Seq<char> {
        match self {
            SttError::ModelMissing(p) => "modèle introuvable : "@ + p@,
            SttError::Load(m) => "chargement du modèle impossible : "@ + m@,
            SttError::Inference(m) => "échec de la transcription : "@ + m@,
        }
    }

    /// The text shown for this error.
    pub fn message(&self) -> (r: String)
        ensures
            r@ == self.message_view(),
    {
        match self {
            SttError::ModelMissing(p) => {
                let mut r = "modèle introuvable : ".to_string();
                r.append(p.as_str());
                r
            },
            SttError::Load(m) => {
                let mut r = "chargement du modèle impossible : ".to_string();
                r.append(m.as_str());
                r
            },
            SttError::Inference(m) => {
                let mut r = "échec de la transcription : ".to_string();
                r.append(m.as_str());
                r
            },
        }
    }
}

/// Encoder frames that cover thirty seconds: the model's full window.
pub const FULL_AUDIO_CTX: usize = 1500;

/// Encoder frames per second of audio.
pub const CTX_FRAMES_PER_SEC: usize = FULL_AUDIO_CTX / 30;

/// Frames added to the window beyond what the audio covers.
pub const CTX_MARGIN_FRAMES: usize = 64;

/// Audio samples per encoder frame at the model's sample rate.
pub open spec fn samples_per_ctx_frame() -> int {
    WHISPER_SAMPLE_RATE as int / CTX_FRAMES_PER_SEC as int
}

/// Encoder frames needed for `n_samples` at the model's rate, a partial
/// frame counting as one, plus the margin, and never past the full window.
pub open spec fn audio_ctx_spec(n_samples: int) -> int {
    let frames = (n_samples + samples_per_ctx_frame() - 1) / samples_per_ctx_frame();
    let needed = frames + CTX_MARGIN_FRAMES;
    if needed < FULL_AUDIO_CTX {
        needed
    } else {
        FULL_AUDIO_CTX as int
    }
}

/// Size of the encoder window for `n_samples` of 16 kHz audio: the model
/// otherwise always encodes thirty seconds, silence included.
pub fn audio_ctx_for(n_samples: usize) -> (ctx: i32)
    ensures
        ctx as int == audio_ctx_spec(n_samples as int),
        0 < ctx <= FULL_AUDIO_CTX,
{
    let per_frame: usize = WHISPER_SAMPLE_RATE as usize / CTX_FRAMES_PER_SEC;
    assert(per_frame == 320);
    let frames = n_samples / per_frame + if n_samples % per_frame == 0 {
        0
    } else {
        1
    };
    assert(frames == (n_samples + 319) / 320);
    if frames >= FULL_AUDIO_CTX - CTX_MARGIN_FRAMES {
        FULL_AUDIO_CTX as i32
    } else {
        (frames + CTX_MARGIN_FRAMES) as i32
    }
}

/// Threads given to the engine: the machine's parallelism, at most 8, or 4
/// when it is not known.
pub fn worker_threads(available: Option<usize>) -> (n: i32)
    ensures
        n == match available {
            Some(k) => if k < 8 {
                k as int
            } else {
                8
            },
            None => 4,
        },
{
    match available {
        Some(k) => if k < 8 {
            k as i32
        } else {
            8
        },
        None => 4,
    }
}

/// The engine's segments put end to end, each followed by one space.
pub open spec fn segments_text(parts: Seq<Seq<char>>) -> Seq<char>
    decreases parts.len(),
{
    if parts.len() == 0 {
        Seq::empty()
    } else {
        segments_text(parts.drop_last()) + parts.last() + seq![' ']
    }
}

/// The raw transcript assembled from the engine's segments.
pub fn join_segments(parts: &Vec<String>) -> (text: String)
    ensures
        text@ == segments_text(parts@.map_values(|p: String| p@)),
{
    let ghost views = parts@.map_values(|p: String| p@);
    let mut text = String::new();
    let mut i: usize = 0;
    while i < parts.len()
        invariant
            i <= parts.len(),
            views == parts@.map_values(|p: String| p@),
            text@ == segments_text(views.take(i as int)),
        decreases parts.len() - i,
    {
        text.append(parts[i].as_str());
        push_char(&mut text, ' ');
        assert(views.take(i as int + 1).drop_last() == views.take(i as int));
        i = i + 1;
    }
    assert(views.take(parts.len() as int) == views);
    text
}

/// The phrases that the model produces on silence or noise in French
/// (from the subtitles of its training data), in lower case.
pub open spec fn hallucinations() -> Seq<Seq<char>> {
    seq![
        "sous-titres réalisés par"@,
        "sous-titrage st'"@,
        "sous-titrage société radio-canada"@,
        "amara.org"@,
        "merci d'avoir regardé"@,
        "abonnez-vous"@,
    ]
}

fn hallucination_phrases() -> (v: Vec<&'static str>)
    ensures
        v@.len() == hallucinations().len(),
        forall|i: int| 0 <= i < v@.len() ==> (#[trigger] v@[i])@ == hallucinations()[i],
{
    let mut v: Vec<&'static str> = Vec::new();
    v.push("sous-titres réalisés par");
    v.push("sous-titrage st'");
    v.push("sous-titrage société radio-canada");
    v.push("amara.org");
    v.push("merci d'avoir regardé");
    v.push("abonnez-vous");
    v
}

/// `needle` occurs in `hay` as a contiguous run.
pub open spec fn occurs_in(hay: Seq<char>, needle: Seq<char>) -> bool {
    exists|i: int| 0 <= i && i + needle.len() <= hay.len() && #[trigger] hay.subrange(i, i + needle.len()) == needle
}

fn matches_at(hay: &Vec<char>, needle: &Vec<char>, at: usize) -> (b: bool)
    requires
        at + needle.len() <= hay.len(),
    ensures
        b == (hay@.subrange(at as int, at + needle.len()) == needle@),
{
    let mut k: usize = 0;
    while k < needle.len()
        invariant
            k <= needle.len(),
            at + needle.len() <= hay.len(),
            forall|j: int| 0 <= j < k ==> hay@[at + j] == needle@[j],
        decreases needle.len() - k,
    {
        if hay[at + k] != needle[k] {
            assert(hay@.subrange(at as int, at + needle.len())[k as int] != needle@[k as int]);
            return false;
        }
        k = k + 1;
    }
    assert(hay@.subrange(at as int, at + needle.len()) == needle@);
    true
}

fn occurs(hay: &Vec<char>, needle: &Vec<char>) -> (b: bool)
    ensures
        b == occurs_in(hay@, needle@),
{
    if needle.len() > hay.len() {
        return false;
    }
    let last = hay.len() - needle.len();
    let mut at: usize = 0;
    loop
        invariant
            at <= last,
            last + needle.len() == hay.len(),
            forall|j: int|
                0 <= j < at ==> #[trigger] hay@.subrange(j, j + needle.len()) != needle@,
        decreases last - at,
    {
        if matches_at(hay, needle, at) {
            return true;
        }
        if at == last {
            assert(forall|j: int|
                0 <= j && j + needle.len() <= hay.len() ==> #[trigger] hay@.subrange(
                    j,
                    j + needle.len(),
                ) != needle@);
            return false;
        }
        at = at + 1;
    }
}

/// The lower-case form of a text, as `str::to_lowercase` computes it.
pub uninterp spec fn lowercase(s: Seq<char>) -> Seq<char>;

/// `str::to_lowercase`. Its result is named `lowercase` of the argument's
/// characters; what Unicode's case mapping gives is not restated here.
#[verifier::external_body]
fn to_lowercase(s: &str) -> (r: String)
    ensures
        r@ == lowercase(s@),
{
    s.to_lowercase()
}

/// Whether a text, once lower-cased, contains one of the known phrases.
pub open spec fn mentions_hallucination(text: Seq<char>) -> bool {
    exists|i: int| 0 <= i < hallucinations().len() && occurs_in(lowercase(text), #[trigger] hallucinations()[i])
}

/// A transcript is dropped when it is short (at most this many words) and
/// mentions a known phrase.
pub const MAX_HALLUCINATION_WORDS: usize = 12;

/// What `clean_transcript` keeps of a raw transcript: its words joined by
/// single spaces, or nothing when that text is short and mentions a phrase
/// the model invents on silence.
pub open spec fn cleaned(raw: Seq<char>) -> Seq<char> {
    let text = normalize(raw);
    if words(text).len() <= MAX_HALLUCINATION_WORDS && mentions_hallucination(text) {
        Seq::empty()
    } else {
        text
    }
}

/// Collapses blanks and drops a transcript that is entirely invented.
pub fn clean_transcript(raw: &str) -> (r: String)
    ensures
        r@ == cleaned(raw@),
{
    let chars = chars_of(raw);
    let (text, n) = normalize_chars(&chars);
    proof {
        lemma_normalize_keeps_words(raw@);
    }
    let lower = to_lowercase(text.as_str());
    let lower_chars = chars_of(lower.as_str());
    let short = n <= MAX_HALLUCINATION_WORDS;
    if short {
        let phrases = hallucination_phrases();
        let mut i: usize = 0;
        while i < phrases.len()
            invariant
                i <= phrases.len(),
                phrases@.len() == hallucinations().len(),
                forall|k: int| 0 <= k < phrases@.len() ==> (#[trigger] phrases@[k])@ == hallucinations()[k],
                lower_chars@ == lowercase(text@),
                text@ == normalize(raw@),
                words(text@).len() == n,
                n <= MAX_HALLUCINATION_WORDS,
                forall|k: int| 0 <= k < i ==> !occurs_in(lower_chars@, #[trigger] hallucinations()[k]),
            decreases phrases.len() - i,
        {
            let phrase = chars_of(phrases[i]);
            assert(phrase@ == hallucinations()[i as int]);
            if occurs(&lower_chars, &phrase) {
                assert(occurs_in(lowercase(text@), hallucinations()[i as int]));
                assert(mentions_hallucination(text@));
                return String::new();
            }
            i = i + 1;
        }
    }
    text
}

/// Cleaning is stable: a cleaned transcript is cleaned again to itself.
pub proof fn lemma_clean_transcript_idempotent(raw: Seq<char>)
    ensures
        cleaned(cleaned(raw)) == cleaned(raw),
{
    lemma_normalize_keeps_words(raw);
    let text = normalize(raw);
    if cleaned(raw) == text {
        assert(normalize(text) == text);
        assert(words(text) == words(raw));
    } else {
        let e = Seq::<char>::empty();
        assert(cleaned(raw) == e);
        assert(words(e) == Seq::<Seq<char>>::empty());
        assert(normalize(e) == e);
    }
}

/// A cleaned transcript keeps every word of the raw one, in order and
/// joined by single spaces, or it is empty.
pub proof fn lemma_clean_transcript_keeps_words(raw: Seq<char>)
    ensures
        cleaned(raw).len() == 0 || (cleaned(raw) == normalize(raw) && words(cleaned(raw))
            == words(raw)),
{
    lemma_normalize_keeps_words(raw);
}

/// What a transcription yields for the dictation: the engine's failure as
/// its message, nothing when the cleaned text is empty, else the text and
/// its word count.
pub fn transcript_outcome(result: Result<String, SttError>) -> (r: Result<Option<(String, usize)>, String>)
    ensures
        match result {
            Err(e) => r matches Err(m) && m@ == e.message_view(),
            Ok(t) => if t@.len() == 0 {
                r matches Ok(None)
            } else {
                r matches Ok(Some((u, n))) && u@ == t@ && n == counted_words(t@).len()
            },
        },
{
    match result {
        Err(e) => Err(e.message()),
        Ok(t) => {
            if t.as_str().is_empty() {
                Ok(None)
            } else {
                let n = word_count(t.as_str());
                Ok(Some((t, n)))
            }
        },
    }
}

/// A phrase is found wherever it stands in a text, not only at its start.
pub proof fn lemma_phrase_found_anywhere(before: Seq<char>, phrase: Seq<char>, after: Seq<char>)
    ensures
        occurs_in(before + phrase + after, phrase),
{
    let hay = before + phrase + after;
    let i = before.len() as int;
    assert(hay.subrange(i, i + phrase.len()) == phrase);
}

/// A short transcript (at most twelve words once blanks are collapsed) in
/// which a listed phrase stands anywhere, once lower-cased, is dropped;
/// any other transcript is kept with its blanks collapsed.
pub proof fn lemma_short_phrase_transcript_dropped(raw: Seq<char>, i: int)
    ensures
        words(normalize(raw)).len() <= MAX_HALLUCINATION_WORDS && 0 <= i < hallucinations().len()
            && occurs_in(lowercase(normalize(raw)), hallucinations()[i]) ==> cleaned(raw).len() == 0,
        (words(normalize(raw)).len() > MAX_HALLUCINATION_WORDS || forall|k: int|
            0 <= k < hallucinations().len() ==> !occurs_in(
                lowercase(normalize(raw)),
                #[trigger] hallucinations()[k],
            )) ==> cleaned(raw) == normalize(raw),
{
}

/// The character is a letter or a digit (`char::is_alphanumeric`).
pub uninterp spec fn is_alphanumeric(c: char) -> bool;

/// `char::is_alphanumeric`. Its result is named `is_alphanumeric`; Unicode's
/// `Alphabetic` and `Numeric` tables are not restated here.
#[verifier::external_body]
fn alphanumeric(c: char) -> (b: bool)
    ensures
        b == is_alphanumeric(c),
{
    c.is_alphanumeric()
}

/// The word holds a letter or a digit.
pub open spec fn has_alphanumeric(w: Seq<char>) -> bool {
    exists|i: int| 0 <= i < w.len() && is_alphanumeric(#[trigger] w[i])
}

/// The words of `text` that hold a letter or a digit (punctuation alone
/// is no word).
pub open spec fn counted_words(text: Seq<char>) -> Seq<Seq<char>> {
    words(text).filter(|w: Seq<char>| has_alphanumeric(w))
}

/// Word counts add up: two texts joined by a space hold as many counted
/// words as the two texts together.
pub proof fn lemma_word_count_of_spaced_concat(a: Seq<char>, b: Seq<char>)
    ensures
        counted_words(a + seq![' '] + b).len() == counted_words(a).len() + counted_words(b).len(),
{
    lemma_words_of_spaced_concat(a, b);
    let pred = |w: Seq<char>| has_alphanumeric(w);
    Seq::filter_distributes_over_add(words(a), words(b), pred);
}

/// A text without blanks is one word, and it counts exactly when some
/// character of it, at any position, is a letter or a digit.
pub proof fn lemma_word_counts_when_it_holds_a_letter_or_digit(w: Seq<char>)
    requires
        w.len() > 0,
        is_blank_free(w),
    ensures
        counted_words(w).len() == if exists|i: int| 0 <= i < w.len() && is_alphanumeric(#[trigger] w[i]) {
            1int
        } else {
            0int
        },
{
    let ws = seq![w];
    assert(join_words(ws) == w);
    lemma_words_of_join(ws);
    assert(words(w) == ws);
    reveal(Seq::filter);
    let pred = |x: Seq<char>| has_alphanumeric(x);
    assert(ws.drop_last() == Seq::<Seq<char>>::empty());
    assert(ws.last() == w);
    assert(Seq::<Seq<char>>::empty().filter(pred) == Seq::<Seq<char>>::empty());
}

/// Punctuation glued to the end of a word never changes the count: the
/// word still counts exactly when it did.
pub proof fn lemma_glued_punctuation_keeps_count(w: Seq<char>, p: Seq<char>)
    requires
        w.len() > 0,
        is_blank_free(w),
        is_blank_free(p),
        forall|i: int| 0 <= i < p.len() ==> !is_alphanumeric(#[trigger] p[i]),
    ensures
        counted_words(w + p).len() == counted_words(w).len(),
{
    let wp = w + p;
    assert(is_blank_free(wp)) by {
        assert forall|i: int| 0 <= i < wp.len() implies !is_white_space(#[trigger] wp[i]) by {
            if i < w.len() {
                assert(wp[i] == w[i]);
            } else {
                assert(wp[i] == p[i - w.len()]);
            }
        }
    }
    lemma_word_counts_when_it_holds_a_letter_or_digit(w);
    lemma_word_counts_when_it_holds_a_letter_or_digit(wp);
    if exists|i: int| 0 <= i < wp.len() && is_alphanumeric(#[trigger] wp[i]) {
        let i = choose|i: int| 0 <= i < wp.len() && is_alphanumeric(#[trigger] wp[i]);
        if i >= w.len() {
            assert(wp[i] == p[i - w.len()]);
        } else {
            assert(wp[i] == w[i]);
        }
    }
    if exists|i: int| 0 <= i < w.len() && is_alphanumeric(#[trigger] w[i]) {
        let i = choose|i: int| 0 <= i < w.len() && is_alphanumeric(#[trigger] w[i]);
        assert(wp[i] == w[i]);
    }
}

/// Number of words, punctuation marks standing alone not counted.
pub fn word_count(text: &str) -> (n: usize)
    ensures
        n == counted_words(text@).len(),
{
    let s = chars_of(text);
    let ghost pred = |w: Seq<char>| has_alphanumeric(w);
    let mut count: usize = 0;
    let mut in_word = false;
    let mut cur_alnum = false;
    let mut i: usize = 0;
    while i < s.len()
        invariant
            i <= s.len(),
            s@ == text@,
            pred == (|w: Seq<char>| has_alphanumeric(w)),
            count == scan(s@.take(i as int)).0.filter(pred).len(),
            in_word == (scan(s@.take(i as int)).1.len() > 0),
            cur_alnum == has_alphanumeric(scan(s@.take(i as int)).1),
            count <= scan(s@.take(i as int)).0.len(),
        decreases s.len() - i,
    {
        let ghost prefix = s@.take(i as int);
        let ghost next = s@.take(i as int + 1);
        assert(next.drop_last() == prefix);
        assert(next.last() == s@[i as int]);
        proof {
            lemma_scan_shape(prefix);
        }
        let ghost done = scan(prefix).0;
        let ghost cur = scan(prefix).1;
        let c = s[i];
        if white_space(c) {
            if in_word {
                assert(done.push(cur).drop_last() == done);
                assert(done.push(cur).last() == cur);
                reveal(Seq::filter);
                assert(done.push(cur).filter(pred) == if pred(cur) {
                    done.filter(pred).push(cur)
                } else {
                    done.filter(pred)
                });
                if cur_alnum {
                    count = count + 1;
                }
                in_word = false;
                cur_alnum = false;
            }
        } else {
            let a = alphanumeric(c);
            assert(has_alphanumeric(cur.push(c)) == (cur_alnum || a)) by {
                if cur_alnum {
                    let k = choose|k: int| 0 <= k < cur.len() && is_alphanumeric(#[trigger] cur[k]);
                    assert(cur.push(c)[k] == cur[k]);
                }
                if a {
                    assert(cur.push(c)[cur.len() as int] == c);
                }
                if has_alphanumeric(cur.push(c)) {
                    let k = choose|k: int|
                        0 <= k < cur.push(c).len() && is_alphanumeric(#[trigger] cur.push(c)[k]);
                    if k < cur.len() {
                        assert(cur.push(c)[k] == cur[k]);
                    }
                }
            }
            in_word = true;
            cur_alnum = cur_alnum || a;
        }
        i = i + 1;
    }
    assert(s@.take(s.len() as int) == s@);
    let ghost done = scan(s@).0;
    let ghost cur = scan(s@).1;
    proof {
        lemma_scan_shape(s@);
    }
    if in_word {
        assert(done.push(cur).drop_last() == done);
        assert(done.push(cur).last() == cur);
        reveal(Seq::filter);
        assert(done.push(cur).filter(pred) == if pred(cur) {
            done.filter(pred).push(cur)
        } else {
            done.filter(pred)
        });
        if cur_alnum {
            count = count + 1;
        }
    }
    count
}

} // verus!
