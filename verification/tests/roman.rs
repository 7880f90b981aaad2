use music_theory::roman::{
    apply_accidental_to_note, get_chord_numeral, get_chord_numeral_for_lookup,
    get_scale_degree_note, parse_roman_numeral, roman_numeral_to_chord,
};
use music_theory::types::Accidental;

#[test]
fn test_parse_roman_numeral_simple() {
    let result = parse_roman_numeral("I").unwrap();
    assert_eq!(result.degree, 1);
    assert_eq!(result.accidental, None);
    assert!(!result.is_minor);
    assert_eq!(result.suffix, "");
}

#[test]
fn test_parse_roman_numeral_minor() {
    let result = parse_roman_numeral("ii").unwrap();
    assert_eq!(result.degree, 2);
    assert_eq!(result.accidental, None);
    assert!(result.is_minor);
    assert_eq!(result.suffix, "");
}

#[test]
fn test_parse_roman_numeral_with_accidental() {
    let result = parse_roman_numeral("bVII").unwrap();
    assert_eq!(result.degree, 7);
    assert_eq!(result.accidental, Some(Accidental::Flat));
    assert!(!result.is_minor);
    assert_eq!(result.suffix, "");
}

#[test]
fn test_parse_roman_numeral_with_suffix() {
    let result = parse_roman_numeral("V7").unwrap();
    assert_eq!(result.degree, 5);
    assert_eq!(result.accidental, None);
    assert!(!result.is_minor);
    assert_eq!(result.suffix, "7");
}

#[test]
fn test_parse_roman_numeral_slash_chord() {
    let result = parse_roman_numeral("III/4").unwrap();
    assert_eq!(result.degree, 3);
    assert_eq!(result.accidental, None);
    assert!(!result.is_minor);
    assert_eq!(result.suffix, "/4");
}

#[test]
fn test_parse_roman_numeral_complex() {
    let result = parse_roman_numeral("bVII7").unwrap();
    assert_eq!(result.degree, 7);
    assert_eq!(result.accidental, Some(Accidental::Flat));
    assert!(!result.is_minor);
    assert_eq!(result.suffix, "7");
}

#[test]
fn test_roman_numeral_to_chord_simple() {
    let result = roman_numeral_to_chord("I", "C", true).unwrap();
    assert_eq!(result, "C");
}

#[test]
fn test_roman_numeral_to_chord_minor() {
    let result = roman_numeral_to_chord("ii", "C", true).unwrap();
    assert_eq!(result, "Dm");
}

#[test]
fn test_roman_numeral_to_chord_with_accidental() {
    let result = roman_numeral_to_chord("bVII", "C", true).unwrap();
    assert_eq!(result, "Bb");
}

#[test]
fn test_roman_numeral_to_chord_with_suffix() {
    let result = roman_numeral_to_chord("V7", "C", true).unwrap();
    assert_eq!(result, "G7");
}

#[test]
fn test_apply_accidental_to_note() {
    assert_eq!(apply_accidental_to_note("E", Some(Accidental::Flat)).unwrap(), "Eb");
    assert_eq!(apply_accidental_to_note("F", Some(Accidental::Sharp)).unwrap(), "F#");
    assert_eq!(apply_accidental_to_note("Bb", Some(Accidental::Sharp)).unwrap(), "B");
    assert_eq!(apply_accidental_to_note("F#", Some(Accidental::Flat)).unwrap(), "F");
}

#[test]
fn test_get_scale_degree_note() {
    assert_eq!(get_scale_degree_note(1, "C", true).unwrap(), "C");
    assert_eq!(get_scale_degree_note(3, "C", true).unwrap(), "E");
    assert_eq!(get_scale_degree_note(5, "C", true).unwrap(), "G");
    assert_eq!(get_scale_degree_note(1, "G", true).unwrap(), "G");
    assert_eq!(get_scale_degree_note(4, "G", true).unwrap(), "C");
}

#[test]
fn test_sharp_fourth_vs_flat_fifth() {
    // F#m in C should be #iv (F is 4th degree, with sharp)
    let result = get_chord_numeral("F#m", "C").unwrap();
    assert_eq!(result, "#iv", "F#m in C should be #iv");

    // Gbm in C should be bv (G is 5th degree, with flat)
    let result = get_chord_numeral("Gbm", "C").unwrap();
    assert_eq!(result, "bv", "Gbm in C should be bv");
}

#[test]
fn test_natural_degrees() {
    // C in C should be I
    assert_eq!(get_chord_numeral("C", "C").unwrap(), "I");
    // Am in C should be vi
    assert_eq!(get_chord_numeral("Am", "C").unwrap(), "vi");
    // G in C should be V
    assert_eq!(get_chord_numeral("G", "C").unwrap(), "V");
}

#[test]
fn test_flat_key_degrees() {
    // In Gb major, the tonic Gb should be "I" (not "bI")
    assert_eq!(get_chord_numeral("Gb", "Gb").unwrap(), "I", "Gb in key Gb should be I");

    // Ab is the natural II in Gb major
    assert_eq!(get_chord_numeral("Ab", "Gb").unwrap(), "II", "Ab in key Gb should be II");

    // Bb is the natural III in Gb major
    assert_eq!(get_chord_numeral("Bbm", "Gb").unwrap(), "iii", "Bbm in key Gb should be iii");

    // F is the natural VII in Gb major (no flat)
    assert_eq!(get_chord_numeral("F", "Gb").unwrap(), "VII", "F in key Gb should be VII");

    // Db is the natural V in Gb major
    assert_eq!(get_chord_numeral("Db", "Gb").unwrap(), "V", "Db in key Gb should be V");

    // G (natural) in key Gb should be #I (raised tonic)
    assert_eq!(get_chord_numeral("G", "Gb").unwrap(), "#I", "G in key Gb should be #I");
}

#[test]
fn test_lookup_enharmonic_equivalents() {
    // For database lookups, F#m and Gbm should BOTH map to #iv
    // (because database was generated with semitone-based logic)
    let f_sharp = get_chord_numeral_for_lookup("F#m", "C").unwrap();
    let g_flat = get_chord_numeral_for_lookup("Gbm", "C").unwrap();

    assert_eq!(f_sharp, "#iv", "F#m lookup should be #iv");
    assert_eq!(g_flat, "#iv", "Gbm lookup should also be #iv (same semitone)");
    assert_eq!(f_sharp, g_flat, "Enharmonic equivalents should have same lookup key");
}

#[test]
fn test_lookup_basic_numerals() {
    // Basic diatonic chords
    assert_eq!(get_chord_numeral_for_lookup("C", "C").unwrap(), "I");
    assert_eq!(get_chord_numeral_for_lookup("Dm", "C").unwrap(), "ii");
    assert_eq!(get_chord_numeral_for_lookup("Em", "C").unwrap(), "iii");
    assert_eq!(get_chord_numeral_for_lookup("F", "C").unwrap(), "IV");
    assert_eq!(get_chord_numeral_for_lookup("G", "C").unwrap(), "V");
    assert_eq!(get_chord_numeral_for_lookup("Am", "C").unwrap(), "vi");

    // Non-diatonic (chromatic) chords
    assert_eq!(get_chord_numeral_for_lookup("Bb", "C").unwrap(), "bVII");
    assert_eq!(get_chord_numeral_for_lookup("Eb", "C").unwrap(), "bIII");
    assert_eq!(get_chord_numeral_for_lookup("Ab", "C").unwrap(), "bVI");
}

#[test]
fn test_lookup_with_quality() {
    // 7th chords
    assert_eq!(get_chord_numeral_for_lookup("Dm7", "C").unwrap(), "ii7");
    assert_eq!(get_chord_numeral_for_lookup("G7", "C").unwrap(), "V7");

    // Major 7th
    assert_eq!(get_chord_numeral_for_lookup("Cmaj7", "C").unwrap(), "IM7");
    assert_eq!(get_chord_numeral_for_lookup("Fmaj7", "C").unwrap(), "IVM7");
}
