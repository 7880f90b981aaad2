use music_theory::intervals::{
    chord_intervals, chord_to_notes, get_letter_at_degree, interval_to_scale_degree,
    parse_chord_with_intervals, spell_interval_diatonically,
};

#[test]
fn test_chord_intervals_lookup() {
    assert_eq!(chord_intervals("").unwrap(), vec![0, 4, 7]);
    assert_eq!(chord_intervals("m").unwrap(), vec![0, 3, 7]);
    assert_eq!(chord_intervals("7").unwrap(), vec![0, 4, 7, 10]);
}

// ========================================================================
// Diatonic Spelling Tests
// ========================================================================

#[test]
fn test_interval_to_scale_degree() {
    assert_eq!(interval_to_scale_degree(0), 1);   // Unison
    assert_eq!(interval_to_scale_degree(1), 2);   // Minor 2nd
    assert_eq!(interval_to_scale_degree(2), 2);   // Major 2nd
    assert_eq!(interval_to_scale_degree(3), 3);   // Minor 3rd
    assert_eq!(interval_to_scale_degree(4), 3);   // Major 3rd
    assert_eq!(interval_to_scale_degree(5), 4);   // Perfect 4th
    assert_eq!(interval_to_scale_degree(6), 4);   // Tritone (#4)
    assert_eq!(interval_to_scale_degree(7), 5);   // Perfect 5th
    assert_eq!(interval_to_scale_degree(8), 5);   // Aug 5th / Min 6th
    assert_eq!(interval_to_scale_degree(9), 6);   // Major 6th
    assert_eq!(interval_to_scale_degree(10), 7);  // Minor 7th
    assert_eq!(interval_to_scale_degree(11), 7);  // Major 7th
}

#[test]
fn test_get_letter_at_degree() {
    // From F
    assert_eq!(get_letter_at_degree('F', 1), 'F');
    assert_eq!(get_letter_at_degree('F', 2), 'G');
    assert_eq!(get_letter_at_degree('F', 3), 'A');
    assert_eq!(get_letter_at_degree('F', 4), 'B');
    assert_eq!(get_letter_at_degree('F', 5), 'C');
    assert_eq!(get_letter_at_degree('F', 6), 'D');
    assert_eq!(get_letter_at_degree('F', 7), 'E');

    // From C
    assert_eq!(get_letter_at_degree('C', 3), 'E');
    assert_eq!(get_letter_at_degree('C', 5), 'G');

    // From Bb (uses 'B' letter)
    assert_eq!(get_letter_at_degree('B', 3), 'D');
}

#[test]
fn test_spell_interval_diatonically_basic() {
    // Perfect intervals from C
    assert_eq!(spell_interval_diatonically("C", 0).unwrap(), "C");
    assert_eq!(spell_interval_diatonically("C", 7).unwrap(), "G");

    // Major 3rd from C
    assert_eq!(spell_interval_diatonically("C", 4).unwrap(), "E");

    // Minor 3rd from C (needs flat)
    assert_eq!(spell_interval_diatonically("C", 3).unwrap(), "Eb");
}

#[test]
fn test_fm7_spelling_critical() {
    // THE CRITICAL TEST CASE
    let fm7_notes = chord_to_notes("Fm7").unwrap();
    assert_eq!(fm7_notes, vec!["F", "Ab", "C", "Eb"]);

    // Verify it's NOT using sharps
    assert_ne!(fm7_notes[1], "G#");
    assert_ne!(fm7_notes[3], "D#");
}

#[test]
fn test_minor_chord_spelling() {
    // F minor triad
    assert_eq!(chord_to_notes("Fm").unwrap(), vec!["F", "Ab", "C"]);

    // C minor
    assert_eq!(chord_to_notes("Cm").unwrap(), vec!["C", "Eb", "G"]);

    // Bb minor
    assert_eq!(chord_to_notes("Bbm").unwrap(), vec!["Bb", "Db", "F"]);
}

#[test]
fn test_seventh_chords() {
    // Dominant 7ths
    assert_eq!(chord_to_notes("C7").unwrap(), vec!["C", "E", "G", "Bb"]);
    assert_eq!(chord_to_notes("F7").unwrap(), vec!["F", "A", "C", "Eb"]);

    // Major 7ths
    assert_eq!(chord_to_notes("Cmaj7").unwrap(), vec!["C", "E", "G", "B"]);
    assert_eq!(chord_to_notes("Fmaj7").unwrap(), vec!["F", "A", "C", "E"]);

    // Minor 7ths
    assert_eq!(chord_to_notes("Cm7").unwrap(), vec!["C", "Eb", "G", "Bb"]);
}

#[test]
fn test_augmented_with_flat_roots() {
    // An augmented 5th over a flat root is written natural, not sharp

    // Db augmented: Db, F, A (NOT Ab#)
    let dbaug = chord_to_notes("Dbaug").unwrap();
    assert_eq!(dbaug, vec!["Db", "F", "A"]);
    assert_eq!(dbaug[2], "A");  // Naturalized, not Ab#

    // Eb augmented: Eb, G, B (NOT Bb#)
    let ebaug = chord_to_notes("Ebaug").unwrap();
    assert_eq!(ebaug, vec!["Eb", "G", "B"]);
    assert_eq!(ebaug[2], "B");  // Naturalized

    // Ab augmented
    let abaug = chord_to_notes("Abaug").unwrap();
    assert_eq!(abaug, vec!["Ab", "C", "E"]);
    assert_eq!(abaug[2], "E");
}

#[test]
fn test_tritone_spelling() {
    // Tritone (6 semitones) should spell as #4 (augmented 4th)
    assert_eq!(spell_interval_diatonically("C", 6).unwrap(), "F#");
    assert_eq!(spell_interval_diatonically("F", 6).unwrap(), "B");
    assert_eq!(spell_interval_diatonically("G", 6).unwrap(), "C#");
}

#[test]
fn test_diminished_chords() {
    // Diminished triad
    assert_eq!(chord_to_notes("Cdim").unwrap(), vec!["C", "Eb", "Gb"]);
    assert_eq!(chord_to_notes("Fdim").unwrap(), vec!["F", "Ab", "Cb"]);

    // Half-diminished 7th (m7b5)
    assert_eq!(chord_to_notes("Cm7b5").unwrap(), vec!["C", "Eb", "Gb", "Bb"]);
}

#[test]
fn test_diminished_7th() {
    // Diminished 7th has double-flat for the 7th degree
    let cdim7 = chord_to_notes("Cdim7").unwrap();
    assert_eq!(cdim7, vec!["C", "Eb", "Gb", "Bbb"]);

    // The 7th note should be Bbb (double flat), not A
    assert_eq!(cdim7[3], "Bbb");
}

#[test]
fn test_altered_chords() {
    // 7b9 chord
    let c7b9 = chord_to_notes("C7b9").unwrap();
    assert_eq!(c7b9, vec!["C", "E", "G", "Bb", "Db"]);
    assert_eq!(c7b9[4], "Db");  // Flat 9th, not C#

    // 7#9 chord
    let c7sharp9 = chord_to_notes("C7#9").unwrap();
    assert_eq!(c7sharp9, vec!["C", "E", "G", "Bb", "D#"]);
    assert_eq!(c7sharp9[4], "D#");  // Sharp 9th
}

#[test]
fn test_suspended_chords() {
    assert_eq!(chord_to_notes("Csus2").unwrap(), vec!["C", "D", "G"]);
    assert_eq!(chord_to_notes("Csus4").unwrap(), vec!["C", "F", "G"]);
    assert_eq!(chord_to_notes("C7sus4").unwrap(), vec!["C", "F", "G", "Bb"]);
}

#[test]
fn test_extended_chords() {
    // 9th chords
    assert_eq!(chord_to_notes("C9").unwrap(), vec!["C", "E", "G", "Bb", "D"]);
    assert_eq!(chord_to_notes("Cmaj9").unwrap(), vec!["C", "E", "G", "B", "D"]);
    assert_eq!(chord_to_notes("Cm9").unwrap(), vec!["C", "Eb", "G", "Bb", "D"]);
}

#[test]
fn test_complex_roots() {
    // Sharp roots
    let fsharp_maj = chord_to_notes("F#").unwrap();
    assert_eq!(fsharp_maj, vec!["F#", "A#", "C#"]);

    // Flat roots
    let ab_maj = chord_to_notes("Ab").unwrap();
    assert_eq!(ab_maj, vec!["Ab", "C", "Eb"]);

    let db_maj = chord_to_notes("Db").unwrap();
    assert_eq!(db_maj, vec!["Db", "F", "Ab"]);
}

#[test]
fn test_chord_to_notes() {
    assert_eq!(chord_to_notes("C").unwrap(), vec!["C", "E", "G"]);
    assert_eq!(chord_to_notes("Am").unwrap(), vec!["A", "C", "E"]);
    assert_eq!(chord_to_notes("Dm7").unwrap(), vec!["D", "F", "A", "C"]);
    assert_eq!(chord_to_notes("G7").unwrap(), vec!["G", "B", "D", "F"]);
    assert_eq!(chord_to_notes("Fmaj7").unwrap(), vec!["F", "A", "C", "E"]);
}

#[test]
fn test_add6_chords() {
    assert_eq!(chord_to_notes("Cadd6").unwrap(), vec!["C", "E", "G", "A"]);
    assert_eq!(chord_to_notes("Dmadd6").unwrap(), vec!["D", "F", "A", "B"]);
}

#[test]
fn test_slash_chords() {
    // Bass note prepended - may duplicate if bass is in chord
    assert_eq!(chord_to_notes("C/E").unwrap(), vec!["E", "C", "E", "G"]);
    assert_eq!(chord_to_notes("Am/G").unwrap(), vec!["G", "A", "C", "E"]);
    // Non-chord-tone bass
    assert_eq!(chord_to_notes("C/B").unwrap(), vec!["B", "C", "E", "G"]);

    // Extended slash chords (7ths, maj7, m7)
    assert_eq!(chord_to_notes("Cmaj7/E").unwrap(), vec!["E", "C", "E", "G", "B"]);
    assert_eq!(chord_to_notes("Dm7/A").unwrap(), vec!["A", "D", "F", "A", "C"]);
    assert_eq!(chord_to_notes("G7/F").unwrap(), vec!["F", "G", "B", "D", "F"]);
}

#[test]
fn test_sixth_chord_variants() {
    assert_eq!(chord_to_notes("C6sus2").unwrap(), vec!["C", "D", "G", "A"]);
    assert_eq!(chord_to_notes("C6sus4").unwrap(), vec!["C", "F", "G", "A"]);
    assert_eq!(chord_to_notes("C6add9").unwrap(), vec!["C", "E", "G", "A", "D"]);
}

#[test]
fn test_7no5_chord() {
    // C7no5: C (root), E (major 3rd), Bb (minor 7th)
    assert_eq!(chord_to_notes("C7no5").unwrap(), vec!["C", "E", "Bb"]);
}

#[test]
fn test_parse_chord_with_intervals() {
    // Test basic chords
    assert_eq!(parse_chord_with_intervals("").unwrap(), vec![0, 4, 7]);
    assert_eq!(parse_chord_with_intervals("m").unwrap(), vec![0, 3, 7]);
    assert_eq!(parse_chord_with_intervals("7").unwrap(), vec![0, 4, 7, 10]);

    // Test added chord qualities
    assert_eq!(parse_chord_with_intervals("Maj7").unwrap(), vec![0, 4, 7, 11]);
    assert_eq!(parse_chord_with_intervals("mM7").unwrap(), vec![0, 3, 7, 11]);
    assert_eq!(parse_chord_with_intervals("°7").unwrap(), vec![0, 3, 6, 9]);
    assert_eq!(parse_chord_with_intervals("aug7").unwrap(), vec![0, 4, 8, 10]);

    // Test extended chords
    assert_eq!(parse_chord_with_intervals("9").unwrap(), vec![0, 4, 7, 10, 14]);
    assert_eq!(parse_chord_with_intervals("maj9").unwrap(), vec![0, 4, 7, 11, 14]);
    assert_eq!(parse_chord_with_intervals("Maj9").unwrap(), vec![0, 4, 7, 11, 14]);

    // Test add chords
    assert_eq!(parse_chord_with_intervals("add9").unwrap(), vec![0, 4, 7, 14]);
    assert_eq!(parse_chord_with_intervals("madd9").unwrap(), vec![0, 3, 7, 14]);

    // Test normalization
    assert_eq!(parse_chord_with_intervals("maj").unwrap(), vec![0, 4, 7]);
    assert_eq!(parse_chord_with_intervals("major").unwrap(), vec![0, 4, 7]);
    assert_eq!(parse_chord_with_intervals("minor").unwrap(), vec![0, 3, 7]);

    // Test unknown chord falls back to major triad
    assert_eq!(parse_chord_with_intervals("unknown").unwrap(), vec![0, 4, 7]);
}
