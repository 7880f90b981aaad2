use music_theory::pitches::{generate_chord_pitches, ChordRequest};

#[test]
fn test_generate_fm7_pitches() {
    // THE CRITICAL TEST CASE
    let request = ChordRequest {
        root: "F".to_string(),
        quality: "minor7".to_string(),
        root_octave: 3,
        inversion: None,
    };

    let response = generate_chord_pitches(request).unwrap();

    assert_eq!(response.pitches.len(), 4);
    assert_eq!(response.pitches[0].note, "F");
    assert_eq!(response.pitches[1].note, "Ab");  // Not G#!
    assert_eq!(response.pitches[2].note, "C");
    assert_eq!(response.pitches[3].note, "Eb");  // Not D#!

    // Verify octaves (F=5, Ab=8 stay in oct 3; C=0, Eb=3 wrap to oct 4)
    assert_eq!(response.pitches[0].octave, 3);  // F
    assert_eq!(response.pitches[1].octave, 3);  // Ab
    assert_eq!(response.pitches[2].octave, 4);  // C (wrapped)
    assert_eq!(response.pitches[3].octave, 4);  // Eb
}

#[test]
fn test_generate_dbaug_pitches() {
    // An augmented chord over a flat root has a natural fifth
    let request = ChordRequest {
        root: "Db".to_string(),
        quality: "augmented".to_string(),
        root_octave: 4,
        inversion: None,
    };

    let response = generate_chord_pitches(request).unwrap();

    assert_eq!(response.pitches[0].note, "Db");
    assert_eq!(response.pitches[1].note, "F");
    assert_eq!(response.pitches[2].note, "A");  // Natural, not Ab#
}

#[test]
fn test_generate_cm7_pitches() {
    let request = ChordRequest {
        root: "C".to_string(),
        quality: "minor7".to_string(),
        root_octave: 3,
        inversion: None,
    };

    let response = generate_chord_pitches(request).unwrap();

    assert_eq!(response.pitches.len(), 4);
    assert_eq!(response.pitches[0].note, "C");
    assert_eq!(response.pitches[1].note, "Eb");
    assert_eq!(response.pitches[2].note, "G");
    assert_eq!(response.pitches[3].note, "Bb");
}

#[test]
fn test_generate_major7_pitches() {
    let request = ChordRequest {
        root: "F".to_string(),
        quality: "major7".to_string(),
        root_octave: 3,
        inversion: None,
    };

    let response = generate_chord_pitches(request).unwrap();

    assert_eq!(response.pitches.len(), 4);
    assert_eq!(response.pitches[0].note, "F");
    assert_eq!(response.pitches[1].note, "A");
    assert_eq!(response.pitches[2].note, "C");
    assert_eq!(response.pitches[3].note, "E");
}

#[test]
fn test_octave_wrapping() {
    // Test that octaves increment correctly when notes wrap
    let request = ChordRequest {
        root: "B".to_string(),
        quality: "major".to_string(),
        root_octave: 3,
        inversion: None,
    };

    let response = generate_chord_pitches(request).unwrap();

    assert_eq!(response.pitches[0].note, "B");
    assert_eq!(response.pitches[0].octave, 3);

    // D# (semitone 3) is lower than B (semitone 11), so it wraps to octave 4
    assert_eq!(response.pitches[1].note, "D#");
    assert_eq!(response.pitches[1].octave, 4);

    // F# (semitone 6) is higher than D# (semitone 3), stays in octave 4
    assert_eq!(response.pitches[2].note, "F#");
    assert_eq!(response.pitches[2].octave, 4);
}

#[test]
fn test_diminished_spelling() {
    let request = ChordRequest {
        root: "C".to_string(),
        quality: "diminished".to_string(),
        root_octave: 4,
        inversion: None,
    };

    let response = generate_chord_pitches(request).unwrap();

    assert_eq!(response.pitches[0].note, "C");
    assert_eq!(response.pitches[1].note, "Eb");  // Minor 3rd
    assert_eq!(response.pitches[2].note, "Gb");  // Diminished 5th
}

#[test]
fn test_f_half_diminished_root_position() {
    // F half-diminished: F-Ab-Cb-Eb
    // Critical: F must be the bass note in root position, not Cb
    let request = ChordRequest {
        root: "F".to_string(),
        quality: "half-diminished7".to_string(),
        root_octave: 3,
        inversion: None,
    };

    let response = generate_chord_pitches(request).unwrap();

    // F must be first (bass note) in root position
    assert_eq!(response.pitches[0].note, "F");
    assert_eq!(response.pitches[0].octave, 3);

    assert_eq!(response.pitches[1].note, "Ab");
    assert_eq!(response.pitches[1].octave, 3);

    // Cb is the diminished 5th - must be ABOVE Ab, not below F
    assert_eq!(response.pitches[2].note, "Cb");
    assert_eq!(response.pitches[2].octave, 4);  // Must wrap to octave 4

    assert_eq!(response.pitches[3].note, "Eb");
    assert_eq!(response.pitches[3].octave, 4);
}

#[test]
fn test_quality_normalization() {
    // Test that quality aliases work
    let request1 = ChordRequest {
        root: "C".to_string(),
        quality: "minor".to_string(),
        root_octave: 3,
        inversion: None,
    };

    let request2 = ChordRequest {
        root: "C".to_string(),
        quality: "min".to_string(),
        root_octave: 3,
        inversion: None,
    };

    let response1 = generate_chord_pitches(request1).unwrap();
    let response2 = generate_chord_pitches(request2).unwrap();

    assert_eq!(response1.pitches, response2.pitches);
}

#[test]
fn test_first_inversion() {
    // C Major: C E G -> First inversion: E G C
    // We shift the TOP notes DOWN to keep the chord in the same register
    // (important for bass clef where we don't want chords jumping above middle C)
    // C4-E4-G4 -> E3-G3-C4 (E and G shift down, C stays as the top note)
    let request = ChordRequest {
        root: "C".to_string(),
        quality: "major".to_string(),
        root_octave: 4,
        inversion: Some("first".to_string()),
    };

    let response = generate_chord_pitches(request).unwrap();

    assert_eq!(response.pitches[0].note, "E");
    assert_eq!(response.pitches[0].octave, 3);  // Shifted down

    assert_eq!(response.pitches[1].note, "G");
    assert_eq!(response.pitches[1].octave, 3);  // Shifted down

    assert_eq!(response.pitches[2].note, "C");
    assert_eq!(response.pitches[2].octave, 4);  // Stays in its octave
}

#[test]
fn test_half_diminished_inversion_with_cb() {
    // F half-diminished: F-Ab-Cb-Eb
    // First inversion should be Ab-Cb-Eb-F with correct octaves
    let request = ChordRequest {
        root: "F".to_string(),
        quality: "half-diminished7".to_string(),
        root_octave: 3,
        inversion: Some("first".to_string()),
    };

    let response = generate_chord_pitches(request).unwrap();

    // Ab should be the bass note
    assert_eq!(response.pitches[0].note, "Ab");
    // Cb should be above Ab (not below due to enharmonic octave issues)
    assert_eq!(response.pitches[1].note, "Cb");
    assert!(response.pitches[1].octave >= response.pitches[0].octave,
        "Cb should be at same or higher octave than Ab");

    assert_eq!(response.pitches[2].note, "Eb");
    assert_eq!(response.pitches[3].note, "F");

    // All notes should be in ascending order by pitch
    // This verifies the chord doesn't have notes jumping around octaves incorrectly
}
