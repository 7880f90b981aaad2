use music_theory::intervals::{chord_interval_specs, get_chord_qualities};
use music_theory::playback::voice_chord_for_playback;
use music_theory::voice_leading::VoicingState;

fn played(state: &mut VoicingState, chord: &str, style: &str) -> Vec<(String, i8)> {
    voice_chord_for_playback(state, chord, style, 3)
        .unwrap()
        .into_iter()
        .map(|n| (n.note, n.octave))
        .collect()
}

fn pairs(expected: &[(&str, i8)]) -> Vec<(String, i8)> {
    expected.iter().map(|(n, o)| (n.to_string(), *o)).collect()
}

#[test]
fn a_chord_is_voiced_in_its_style() {
    let mut state = VoicingState::new();
    assert_eq!(played(&mut state, "C", "close"), pairs(&[("C", 3), ("E", 3), ("G", 3)]));
    assert_eq!(played(&mut state, "C9", "wide"), pairs(&[("C", 3), ("E", 3), ("G", 4), ("Bb", 4), ("C", 5)]));
    assert_eq!(played(&mut state, "C/E", "lead"), pairs(&[("E", 2), ("G", 2), ("C", 3), ("E", 3)]));
    assert_eq!(played(&mut state, "C", ""), pairs(&[("C", 2), ("G", 2), ("E", 3)]));
}

#[test]
fn only_a_led_voicing_is_remembered() {
    let mut state = VoicingState::new();
    played(&mut state, "B5", "lead");
    played(&mut state, "C", "close");
    played(&mut state, "C", "wide");
    assert_eq!(played(&mut state, "C", "lead"), pairs(&[("C", 2), ("E", 3), ("G", 3)]));
}

#[test]
fn playback_errors_say_where_they_arose() {
    let mut state = VoicingState::new();
    assert_eq!(
        voice_chord_for_playback(&mut state, "", "close", 3).unwrap_err(),
        "Chord cannot be empty"
    );
    assert_eq!(
        voice_chord_for_playback(&mut state, "cm", "close", 3).unwrap_err(),
        "Failed to parse chord: Invalid chord: Root must be uppercase: cm"
    );
    assert_eq!(
        voice_chord_for_playback(&mut state, "Fdim", "close", 3).unwrap_err(),
        "Voice leading failed: Parsing error: Invalid note: Cb"
    );
    assert_eq!(
        voice_chord_for_playback(&mut state, "Fdim", "lead", 3).unwrap_err(),
        "Voice leading failed: Parsing error: Invalid note: Cb"
    );
}

#[test]
fn every_listed_quality_has_tones() {
    let qualities = get_chord_qualities();
    assert_eq!(qualities.len(), 92);
    for quality in &qualities {
        assert!(chord_interval_specs(quality).is_some());
    }
    for known in ["", "m7b5", "°7", "ø", "maj9#11", "5", "6/9"] {
        assert!(qualities.iter().any(|q| q == known));
    }
    let mut sorted = qualities.clone();
    sorted.sort();
    sorted.dedup();
    assert_eq!(sorted.len(), 92);
}
