use music_theory::types::VoicingStyle;
use music_theory::voice_leading::{
    midi_to_note, note_to_midi, reset_voicing, voice_chord, voice_chord_with_leading, VoicingState,
};

#[test]
fn test_note_to_midi() {
    assert_eq!(note_to_midi("C", 4).unwrap(), 60);
    assert_eq!(note_to_midi("A", 3).unwrap(), 57);
    assert_eq!(note_to_midi("F#", 2).unwrap(), 42);
}

#[test]
fn test_midi_to_note() {
    assert_eq!(midi_to_note(60).unwrap(), "C4");
    assert_eq!(midi_to_note(57).unwrap(), "A3");
    assert_eq!(midi_to_note(42).unwrap(), "F#2");
}

#[test]
fn test_voice_chord_close() {
    let notes = vec!["C".to_string(), "E".to_string(), "G".to_string()];
    let result = voice_chord(&notes, "C", 3, VoicingStyle::Close).unwrap();

    assert_eq!(result.len(), 3);
    assert_eq!(result[0].note, "C");
    assert_eq!(result[0].octave, 3);
    assert_eq!(result[1].note, "E");
    assert_eq!(result[2].note, "G");
}

#[test]
fn test_voice_chord_wide() {
    let notes = vec!["C".to_string(), "E".to_string(), "G".to_string()];
    let result = voice_chord(&notes, "C", 3, VoicingStyle::Wide).unwrap();

    assert_eq!(result.len(), 3);
    // In wide voicing, notes should be spread across octaves
    assert!(result[0].octave <= result[1].octave);
    assert!(result[1].octave <= result[2].octave);
}

#[test]
fn test_voice_chord_with_leading_first() {
    let mut state = VoicingState::new();
    reset_voicing(&mut state); // Ensure clean state
    let notes = vec!["C".to_string(), "E".to_string(), "G".to_string()];
    let result = voice_chord_with_leading(&mut state, &notes, "C", 3).unwrap();

    assert_eq!(result.len(), 3);
    assert_eq!(result[0].note, "C");
    assert_eq!(result[0].octave, 2); // Bass always at octave 2
}

#[test]
fn test_voice_chord_with_leading_bass_excluded_from_upper() {
    let mut state = VoicingState::new();
    reset_voicing(&mut state);
    // C major: C E G with C as bass
    let notes = vec!["C".to_string(), "E".to_string(), "G".to_string()];
    let result = voice_chord_with_leading(&mut state, &notes, "C", 3).unwrap();

    // Bass is C, upper voices should be E and G only (C excluded)
    assert_eq!(result.len(), 3);
    assert_eq!(result[0].note, "C"); // Bass
    // Upper voices should not duplicate C
    let upper_notes: Vec<&str> = result[1..].iter().map(|n| n.note.as_str()).collect();
    assert!(upper_notes.contains(&"E"));
    assert!(upper_notes.contains(&"G"));
}

#[test]
fn test_voice_chord_with_leading_sequence() {
    let mut state = VoicingState::new();
    reset_voicing(&mut state);

    // First chord: C major
    let c_major = vec!["C".to_string(), "E".to_string(), "G".to_string()];
    let result1 = voice_chord_with_leading(&mut state, &c_major, "C", 3).unwrap();
    assert_eq!(result1.len(), 3);

    // Second chord: G major - should use voice leading from previous
    let g_major = vec!["G".to_string(), "B".to_string(), "D".to_string()];
    let result2 = voice_chord_with_leading(&mut state, &g_major, "G", 3).unwrap();
    assert_eq!(result2.len(), 3);
    assert_eq!(result2[0].note, "G"); // Bass
    assert_eq!(result2[0].octave, 2); // Bass always at octave 2

    // Upper voices should be close to previous chord's upper voices
    // Previous upper: E3, G3 (approximately)
    // New upper: B, D - should be placed close to minimize movement
}

#[test]
fn test_voice_chord_with_leading_upper_voices_sorted() {
    let mut state = VoicingState::new();
    reset_voicing(&mut state);

    // Notes in non-ascending order
    let notes = vec!["C".to_string(), "G".to_string(), "E".to_string()];
    let result = voice_chord_with_leading(&mut state, &notes, "C", 3).unwrap();

    // Upper voices (excluding bass) should be sorted by pitch
    if result.len() > 2 {
        let upper_midi_1 = note_to_midi(&result[1].note, result[1].octave).unwrap();
        let upper_midi_2 = note_to_midi(&result[2].note, result[2].octave).unwrap();
        assert!(upper_midi_1 <= upper_midi_2, "Upper voices should be sorted ascending");
    }
}

#[test]
fn test_voice_chord_with_leading_range_limits() {
    let mut state = VoicingState::new();
    reset_voicing(&mut state);

    let notes = vec!["C".to_string(), "E".to_string(), "G".to_string()];
    let result = voice_chord_with_leading(&mut state, &notes, "C", 3).unwrap();

    // All notes should be within MIDI 21 (A1) to 72 (C5)
    for audio_note in &result {
        let midi = note_to_midi(&audio_note.note, audio_note.octave).unwrap();
        assert!(midi >= 21, "Note {} should be >= A1 (MIDI 21), got MIDI {}", audio_note.note, midi);
        assert!(midi <= 72, "Note {} should be <= C5 (MIDI 72), got MIDI {}", audio_note.note, midi);
    }
}

#[test]
fn test_voice_chord_with_leading_single_note() {
    let mut state = VoicingState::new();
    reset_voicing(&mut state);

    // Edge case: chord with only root note
    let notes = vec!["C".to_string()];
    let result = voice_chord_with_leading(&mut state, &notes, "C", 3).unwrap();

    // Should just have bass note
    assert_eq!(result.len(), 1);
    assert_eq!(result[0].note, "C");
    assert_eq!(result[0].octave, 2);
}

#[test]
fn test_reset_voicing_clears_state() {
    let mut state = VoicingState::new();
    // First chord sets state
    let notes = vec!["C".to_string(), "E".to_string(), "G".to_string()];
    let _ = voice_chord_with_leading(&mut state, &notes, "C", 3).unwrap();

    // Reset should clear state
    reset_voicing(&mut state);

    // Next chord should behave like first chord (no voice leading)
    let g_major = vec!["G".to_string(), "B".to_string(), "D".to_string()];
    let result = voice_chord_with_leading(&mut state, &g_major, "G", 3).unwrap();

    // Should use initial voicing logic, not voice leading
    assert_eq!(result[0].note, "G");
    assert_eq!(result[0].octave, 2);
}

#[test]
fn test_voice_chord_range_clamping() {
    // Test very low notes get clamped to A1 (MIDI 21)
    let notes = vec!["C".to_string(), "E".to_string()];
    let result = voice_chord(&notes, "C", 0, VoicingStyle::Close).unwrap();

    // Should clamp to minimum range
    assert!(result.iter().all(|note| {
        note_to_midi(&note.note, note.octave).unwrap_or(0) >= 21
    }));
}
