use dictee::audio::dsp::WHISPER_SAMPLE_RATE;
use dictee::stt::{
    audio_ctx_for, clean_transcript, join_segments, transcript_outcome, word_count,
    worker_threads, SttError,
};

#[test]
fn collapses_whitespace_between_segments() {
    assert_eq!(clean_transcript("  Bonjour,  \n comment ça va ?  "), "Bonjour, comment ça va ?");
}

#[test]
fn drops_known_hallucinations() {
    assert_eq!(clean_transcript(" Sous-titres réalisés par la communauté d'Amara.org "), "");
    assert_eq!(clean_transcript("Merci d'avoir regardé cette vidéo !"), "");
}

#[test]
fn keeps_real_dictation_mentioning_similar_words() {
    let long = "Je voulais vous dire merci d'avoir regardé le dossier hier soir, nous en reparlerons à la réunion de jeudi prochain";
    assert_eq!(clean_transcript(long), long);
}

#[test]
fn audio_ctx_scales_with_duration_and_caps() {
    let sr = WHISPER_SAMPLE_RATE as usize;
    assert_eq!(audio_ctx_for(10 * sr), 500 + 64);
    assert_eq!(audio_ctx_for(sr / 2), 25 + 64);
    assert_eq!(audio_ctx_for(40 * sr), 1500);
}

#[test]
fn counts_words_ignoring_punctuation() {
    assert_eq!(word_count("Bonjour , je suis là !"), 4);
    assert_eq!(word_count(""), 0);
}

#[test]
fn audio_ctx_counts_partial_frames() {
    assert_eq!(audio_ctx_for(0), 64);
    assert_eq!(audio_ctx_for(1), 65);
    assert_eq!(audio_ctx_for(320), 65);
    assert_eq!(audio_ctx_for(321), 66);
    assert_eq!(audio_ctx_for(1436 * 320), 1500);
    assert_eq!(audio_ctx_for(1435 * 320), 1499);
    assert_eq!(audio_ctx_for(usize::MAX), 1500);
}

#[test]
fn unicode_blanks_are_collapsed() {
    assert_eq!(clean_transcript("\u{a0}un\u{2003}deux\u{3000}\u{85}trois\t"), "un deux trois");
    assert_eq!(clean_transcript(" \n\t "), "");
}

#[test]
fn cleaning_twice_is_cleaning_once() {
    for raw in [
        "  Bonjour,  \n comment ça va ?  ",
        " Sous-titres réalisés par la communauté d'Amara.org ",
        "abonnez-vous",
        "",
    ] {
        let once = clean_transcript(raw);
        assert_eq!(clean_transcript(&once), once);
    }
}

#[test]
fn hallucination_in_long_text_is_kept() {
    let thirteen = "abonnez-vous un deux trois quatre cinq six sept huit neuf dix onze douze";
    assert_eq!(clean_transcript(thirteen), thirteen);
    let twelve = "abonnez-vous un deux trois quatre cinq six sept huit neuf dix onze";
    assert_eq!(clean_transcript(twelve), "");
    assert_eq!(clean_transcript("SOUS-TITRAGE ST' 501"), "");
    assert_eq!(clean_transcript("Sous-titrage Société Radio-Canada"), "");
}

#[test]
fn word_count_uses_letters_and_digits() {
    assert_eq!(word_count("  a  ,  1 ; ... 二 "), 3);
    assert_eq!(word_count("- — !"), 0);
    assert_eq!(word_count("l'été"), 1);
}

#[test]
fn segments_are_joined_with_trailing_spaces() {
    let parts = vec![" Bonjour".to_string(), "à tous.".to_string()];
    assert_eq!(join_segments(&parts), " Bonjour à tous. ");
    assert_eq!(join_segments(&Vec::new()), "");
    assert_eq!(clean_transcript(&join_segments(&parts)), "Bonjour à tous.");
}

#[test]
fn thread_count_is_capped() {
    assert_eq!(worker_threads(Some(3)), 3);
    assert_eq!(worker_threads(Some(8)), 8);
    assert_eq!(worker_threads(Some(16)), 8);
    assert_eq!(worker_threads(None), 4);
}

#[test]
fn stt_error_messages() {
    assert_eq!(SttError::ModelMissing("/m.bin".into()).message(), "modèle introuvable : /m.bin");
    assert_eq!(SttError::Load("x".into()).message(), "chargement du modèle impossible : x");
    assert_eq!(SttError::Inference("y".into()).message(), "échec de la transcription : y");
}

#[test]
fn transcript_outcomes() {
    assert_eq!(
        transcript_outcome(Err(SttError::Inference("boom".into()))),
        Err("échec de la transcription : boom".to_string())
    );
    assert_eq!(transcript_outcome(Ok(String::new())), Ok(None));
    assert_eq!(
        transcript_outcome(Ok("Bonjour , je suis là !".into())),
        Ok(Some(("Bonjour , je suis là !".to_string(), 4)))
    );
}

#[test]
fn word_counts_add_up_across_a_space() {
    let a = "Bonjour , je";
    let b = "suis là !";
    assert_eq!(word_count(&format!("{a} {b}")), word_count(a) + word_count(b));
    assert_eq!(word_count(" "), word_count("") + word_count(""));
}
