use music_theory::chords::{
    get_diatonic_chords, get_initial_chords, get_minor_diatonic_chords, normalize_chord_to_key,
    parse_chord, transpose_chord, validate_chord_input,
};

#[test]
fn test_parse_chord_simple() {
    let chord = parse_chord("C").unwrap();
    assert_eq!(chord.root, "C");
    assert_eq!(chord.suffix, "");
    assert!(chord.bass.is_none());
}

#[test]
fn test_parse_chord_with_suffix() {
    let chord = parse_chord("Dm7").unwrap();
    assert_eq!(chord.root, "D");
    assert_eq!(chord.suffix, "m7");
    assert!(chord.bass.is_none());
}

#[test]
fn test_parse_chord_with_accidental() {
    let chord = parse_chord("F#m").unwrap();
    assert_eq!(chord.root, "F#");
    assert_eq!(chord.suffix, "m");

    let chord2 = parse_chord("Bbmaj7").unwrap();
    assert_eq!(chord2.root, "Bb");
    assert_eq!(chord2.suffix, "maj7");
}

#[test]
fn test_parse_slash_chord() {
    let chord = parse_chord("C/E").unwrap();
    assert_eq!(chord.root, "C");
    assert_eq!(chord.suffix, "");
    assert_eq!(chord.bass, Some("E".to_string()));
}

#[test]
fn test_transpose_c_to_d() {
    assert_eq!(transpose_chord("C", "C", "D", true).unwrap(), "D");
}

#[test]
fn test_transpose_with_suffix() {
    assert_eq!(transpose_chord("Dm7", "C", "G", true).unwrap(), "Am7");
}

#[test]
fn test_transpose_slash_chord() {
    assert_eq!(transpose_chord("C/E", "C", "G", true).unwrap(), "G/B");
}

#[test]
fn test_transpose_enharmonic() {
    // Transposing to Db (flat key) should use flats
    assert_eq!(transpose_chord("C", "C", "Db", true).unwrap(), "Db");

    // Transposing to C# (sharp key) should use sharps
    assert_eq!(transpose_chord("C", "C", "C#", false).unwrap(), "C#");
}

#[test]
fn test_transpose_round_trip() {
    let chord = "Dm7";
    let transposed = transpose_chord(chord, "C", "G", true).unwrap();
    let back = transpose_chord(&transposed, "G", "C", true).unwrap();
    assert_eq!(back, chord);
}

#[test]
fn test_normalize_chord_to_key() {
    // D# in Eb major should become Eb
    let result = normalize_chord_to_key("D#m", "Eb").unwrap();
    assert_eq!(result, "Ebm");

    // C# in G major should stay C# (sharp key)
    let result2 = normalize_chord_to_key("C#", "G").unwrap();
    assert_eq!(result2, "C#");
}

#[test]
fn test_get_diatonic_chords() {
    let chords = get_diatonic_chords("C", true).unwrap();
    assert_eq!(chords, vec!["C", "Dm", "Em", "F", "G", "Am", "Bm"]);

    let g_chords = get_diatonic_chords("G", true).unwrap();
    assert_eq!(g_chords, vec!["G", "Am", "Bm", "C", "D", "Em", "F#m"]);
}

#[test]
fn test_get_minor_diatonic_chords() {
    let chords = get_minor_diatonic_chords("C", true).unwrap();
    assert_eq!(chords, vec!["Cm", "Ddim", "Eb", "Fm", "Gm", "Ab", "Bb"]);
}

#[test]
fn test_validate_chord() {
    let result = validate_chord_input("C", "C", true).unwrap();
    assert!(result.valid);

    let result2 = validate_chord_input("Dm7", "C", true).unwrap();
    assert!(result2.valid);
}

#[test]
fn test_get_initial_chords() {
    let chords = get_initial_chords("C", true).unwrap();
    assert!(!chords.is_empty());
    assert!(chords.contains(&"C".to_string()));
}
