use music_theory::chords::{
    get_initial_chords, normalize_chord_to_key, parse_chord, prepare_chord_display,
    transpose_chord, validate_chord_input,
};
use music_theory::interval_encoding::{
    build_slash_chord, calculate_bass_semitone, history_to_interval_key, interval_key_to_display,
    interval_to_chord, is_valid_suffix, normalize_interval, normalize_suffix_case,
    parse_chord_for_interval, parse_interval_key, parse_quality_with_bass,
    semitone_to_note_in_key,
};
use music_theory::intervals::{
    chord_interval_specs, chord_to_notes, interval_specs_to_notes, intervals_to_notes,
    parse_chord_with_interval_specs, spell_interval_with_degree,
};
use music_theory::notes::{get_key_signature_type, get_preferred_note_name, note_index, KeyType};
use music_theory::pitches::{
    format_display_name, generate_chord_pitches, get_inversion_figures, is_seventh_chord,
    normalize_quality, note_to_semitone, ChordRequest,
};
use music_theory::roman::{
    apply_accidental_to_note, format_suffix_for_lookup, get_bass_chord_tone_for_lookup,
    get_chord_numeral, get_chord_numeral_for_lookup, get_display_numeral, get_scale_degree_note,
    parse_roman_numeral, roman_numeral_for_display, roman_numeral_to_chord,
};
use music_theory::types::{Accidental, MusicError, VoicingStyle};
use music_theory::types::AudioNote;
use music_theory::voice_leading::{
    apply_close_voicing, apply_wide_voicing, calc_close_voicing_octave, clamp_audio_note,
    midi_to_audio_note, midi_to_note, note_to_midi, voice_chord, voice_chord_with_leading,
    VoicingState,
};

fn names(notes: &[&str]) -> Vec<String> {
    notes.iter().map(|n| n.to_string()).collect()
}

fn parse_error(r: Result<impl std::fmt::Debug, MusicError>) -> String {
    match r {
        Err(MusicError::ParseError(text)) => text,
        other => panic!("not a parse error: {:?}", other),
    }
}

#[test]
fn unknown_note_is_an_invalid_key() {
    match note_index("H") {
        Err(MusicError::InvalidKey(name)) => assert_eq!(name, "H"),
        other => panic!("{:?}", other),
    }
    assert!(note_index("").is_err());
    assert!(note_index("C###").is_err());
    assert!(note_index("C#b").is_err());
    assert!(note_index("c").is_err());
    assert_eq!(note_index("H").unwrap_err().message(), "Invalid key: H");
}

#[test]
fn every_error_has_its_heading() {
    assert_eq!(MusicError::InvalidChord("x".to_string()).message(), "Invalid chord: x");
    assert_eq!(
        MusicError::InvalidRomanNumeral("x".to_string()).message(),
        "Invalid roman numeral: x"
    );
    assert_eq!(MusicError::UnknownQuality("x".to_string()).message(), "Unknown chord quality: x");
    assert_eq!(
        MusicError::DataLookupFailed("x".to_string()).message(),
        "Data lookup failed for key: x"
    );
    assert_eq!(MusicError::VoiceLeadingError("x".to_string()).message(), "Voice leading failed: x");
    assert_eq!(MusicError::ParseError("x".to_string()).message(), "Parsing error: x");
}

#[test]
fn key_types_and_preferred_names() {
    assert_eq!(get_key_signature_type("A#"), KeyType::Sharp);
    assert_eq!(get_key_signature_type("Cb"), KeyType::Flat);
    assert_eq!(get_key_signature_type("Am"), KeyType::Neutral);
    assert_eq!(get_key_signature_type(""), KeyType::Neutral);
    assert_eq!(get_preferred_note_name(13, "C", false), "C#");
    assert_eq!(get_preferred_note_name(10, "F", false), "Bb");
    assert_eq!(get_preferred_note_name(10, "G", true), "A#");
    assert_eq!(get_preferred_note_name(255, "C", true), "Eb");
}

#[test]
fn parse_chord_edges() {
    let empty = parse_chord("").unwrap();
    assert_eq!(empty.root, "");
    assert_eq!(empty.suffix, "");
    assert!(empty.bass.is_none());

    match parse_chord("/E") {
        Err(MusicError::InvalidChord(text)) => assert_eq!(text, "/E"),
        other => panic!("{:?}", other),
    }
    match parse_chord("cm") {
        Err(MusicError::InvalidChord(text)) => assert_eq!(text, "Root must be uppercase: cm"),
        other => panic!("{:?}", other),
    }
    let spaced = parse_chord("C/ E ").unwrap();
    assert_eq!(spaced.bass, Some("E".to_string()));
    let two = parse_chord("C/E/G").unwrap();
    assert_eq!(two.bass, Some("E/G".to_string()));
    let odd = parse_chord("Hb°7").unwrap();
    assert_eq!(odd.root, "Hb");
    assert_eq!(odd.suffix, "°7");
    let sharp_only = parse_chord("C##").unwrap();
    assert_eq!(sharp_only.root, "C#");
    assert_eq!(sharp_only.suffix, "#");
}

#[test]
fn transpose_errors_come_in_order() {
    match transpose_chord("cm", "H", "J", true) {
        Err(MusicError::InvalidKey(name)) => assert_eq!(name, "H"),
        other => panic!("{:?}", other),
    }
    match transpose_chord("cm", "C", "J", true) {
        Err(MusicError::InvalidKey(name)) => assert_eq!(name, "J"),
        other => panic!("{:?}", other),
    }
    assert!(matches!(transpose_chord("cm", "C", "D", true), Err(MusicError::InvalidChord(_))));
    match transpose_chord("Hm", "C", "D", true) {
        Err(MusicError::InvalidKey(name)) => assert_eq!(name, "H"),
        other => panic!("{:?}", other),
    }
    match transpose_chord("C/X", "C", "D", true) {
        Err(MusicError::InvalidKey(name)) => assert_eq!(name, "X"),
        other => panic!("{:?}", other),
    }
    assert_eq!(transpose_chord("B/F#", "C", "B", false).unwrap(), "A#/F");
    assert_eq!(transpose_chord("C°7", "C", "F", false).unwrap(), "F°7");
}

#[test]
fn normalize_chord_to_key_edges() {
    assert_eq!(normalize_chord_to_key("Fb", "C").unwrap(), "E");
    assert_eq!(normalize_chord_to_key("", "C").unwrap(), "");
    assert_eq!(normalize_chord_to_key("A#m7/b2", "F").unwrap(), "Bbm7/b2");
    assert!(normalize_chord_to_key("Hm", "C").is_err());
}

#[test]
fn validation_says_what_it_found() {
    let nothing = validate_chord_input("   ", "C", true).unwrap();
    assert!(!nothing.valid);
    assert!(nothing.message.is_none());
    assert!(nothing.input_type.is_none());

    let chord = validate_chord_input("  Dm7 ", "C", true).unwrap();
    assert!(chord.valid);
    assert_eq!(chord.chord, Some("Dm7".to_string()));
    assert_eq!(chord.normalized_chord, Some("Dm7".to_string()));
    assert_eq!(chord.input_type, Some("chord".to_string()));

    let numeral = validate_chord_input("bVII", "C", true).unwrap();
    assert!(numeral.valid);
    assert_eq!(numeral.chord, Some("Bb".to_string()));
    assert_eq!(numeral.input_type, Some("numeral".to_string()));

    let wrong = validate_chord_input("xyz", "C", true).unwrap();
    assert!(!wrong.valid);
    assert!(wrong.chord.is_none());
    assert_eq!(wrong.message, Some("Invalid chord or numeral: xyz".to_string()));

    let letter_h = validate_chord_input("Hm", "C", true).unwrap();
    assert!(!letter_h.valid);
}

#[test]
fn initial_chords_are_borrowed_then_diatonic() {
    let chords = get_initial_chords("C", true).unwrap();
    assert_eq!(
        chords,
        vec!["Bb", "Eb", "Ab", "Dm7", "Am7", "Em7", "C", "Dm", "Em", "F", "G", "Am", "Bm"]
    );
    assert!(get_initial_chords("H", true).is_err());
}

#[test]
fn chord_display_keeps_the_spelling() {
    let shown = prepare_chord_display("F#m", "C").unwrap();
    assert_eq!(shown.chord, "F#m");
    assert_eq!(shown.numeral, "#iv");
    let flat = prepare_chord_display("Gbm", "C").unwrap();
    assert_eq!(flat.numeral, "bv");
    assert!(prepare_chord_display("", "C").is_err());
}

#[test]
fn unknown_suffix_falls_back_to_the_major_triad() {
    assert_eq!(chord_to_notes("Cxyz").unwrap(), vec!["C", "E", "G"]);
    assert_eq!(parse_chord_with_interval_specs("xyz").unwrap(), vec![(0, 1), (4, 3), (7, 5)]);
    assert_eq!(parse_chord_with_interval_specs("-").unwrap(), vec![(0, 1), (4, 3), (7, 5)]);
    assert_eq!(parse_chord_with_interval_specs("Diminished").unwrap(), vec![(0, 1), (3, 3), (6, 5)]);
    assert_eq!(parse_chord_with_interval_specs("sus 4").unwrap(), vec![(0, 1), (5, 4), (7, 5)]);
    assert!(chord_interval_specs("xyz").is_none());
    assert_eq!(chord_interval_specs("13").unwrap().len(), 6);
}

#[test]
fn spelling_errors() {
    assert_eq!(parse_error(spell_interval_with_degree("", 3, 3)), "Empty root");
    assert_eq!(
        parse_error(spell_interval_with_degree("C", 6, 1)),
        "Invalid accidental adjustment: 6"
    );
    assert_eq!(parse_error(chord_to_notes("Cbdim7")), "Invalid accidental adjustment: -3");
    assert_eq!(parse_error(chord_to_notes("")), "Empty chord");
    assert!(matches!(spell_interval_with_degree("H", 3, 3), Err(MusicError::InvalidKey(_))));
    assert_eq!(spell_interval_with_degree("B#", 4, 3).unwrap(), "D##");
    assert_eq!(spell_interval_with_degree("C", 255, 9).unwrap(), "D#");
}

#[test]
fn tones_are_spelled_in_order() {
    assert_eq!(interval_specs_to_notes("C", &[(4, 3), (10, 7)]).unwrap(), vec!["E", "Bb"]);
    assert_eq!(intervals_to_notes("C", &[0, 4, 7]).unwrap(), vec!["C", "E", "G"]);
    assert!(interval_specs_to_notes("C", &[]).unwrap().is_empty());
    assert!(intervals_to_notes("X", &[0]).is_err());
}

#[test]
fn encoding_edges() {
    assert_eq!(normalize_interval(-13), 1);
    assert_eq!(normalize_interval(18), 6);
    assert_eq!(normalize_interval(-6), 6);
    assert!(is_valid_suffix("7b13"));
    assert!(is_valid_suffix(""));
    assert!(!is_valid_suffix("M"));
    assert_eq!(normalize_suffix_case("SUS2", "sus2"), "sus2");
    assert_eq!(normalize_suffix_case("m7", "m7"), "m7");
    assert_eq!(calculate_bass_semitone(250, 10), 8);
    assert_eq!(semitone_to_note_in_key(6, "F", false), "Gb");
    assert_eq!(build_slash_chord("C", "m7", "G"), "Cm7/G");
    assert_eq!(build_slash_chord("F", "", "A"), "F/A");
    assert_eq!(interval_key_to_display("3_m"), "3_m");
}

#[test]
fn encoding_errors() {
    assert_eq!(parse_error(history_to_interval_key(&[])), "Empty history");
    assert_eq!(parse_error(parse_chord_for_interval("")), "Empty chord root");
    assert_eq!(parse_error(parse_chord_for_interval("Cxyz")), "Invalid chord suffix: xyz");
    assert_eq!(parse_error(parse_chord_for_interval("C/H")), "Invalid bass note: H");
    assert_eq!(parse_error(parse_chord_for_interval("Cxyz/H")), "Invalid bass note: H");
    assert!(matches!(parse_chord_for_interval("Hm"), Err(MusicError::InvalidKey(_))));
    assert_eq!(
        parse_error(history_to_interval_key(&names(&["C", "Cxyz", "H"]))),
        "Invalid chord suffix: xyz"
    );
    assert_eq!(history_to_interval_key(&names(&["C/E", "Am"])).unwrap(), "M/4_3_m");
}

#[test]
fn steps_are_read_back() {
    assert_eq!(parse_interval_key("3_m").unwrap(), (3, "m".to_string()));
    assert_eq!(parse_interval_key("+5_").unwrap(), (5, "".to_string()));
    assert_eq!(parse_interval_key("007_m7").unwrap(), (7, "m7".to_string()));
    assert_eq!(parse_error(parse_interval_key("3m")), "Invalid interval key format: 3m");
    assert_eq!(parse_error(parse_interval_key("1_2_3")), "Invalid interval key format: 1_2_3");
    assert_eq!(parse_error(parse_interval_key("x_m")), "Invalid interval: x");
    assert_eq!(parse_error(parse_interval_key("256_m")), "Invalid interval: 256");
    assert_eq!(parse_error(parse_interval_key("-1_m")), "Invalid interval: -1");
    assert_eq!(parse_error(parse_interval_key("_m")), "Invalid interval: ");
    assert_eq!(parse_interval_key("255_m").unwrap().0, 255);

    assert_eq!(parse_quality_with_bass("M/4").unwrap(), ("M".to_string(), Some(4)));
    assert_eq!(parse_quality_with_bass("m7").unwrap(), ("m7".to_string(), None));
    assert_eq!(parse_error(parse_quality_with_bass("M/x")), "Invalid bass interval: x");
    assert_eq!(parse_error(parse_quality_with_bass("6/9/2")), "Invalid bass interval: 9/2");
}

#[test]
fn decoding_checks_the_quality() {
    assert_eq!(parse_error(interval_to_chord(0, "xyz", 0, true, "C")), "Invalid chord suffix: xyz");
    assert_eq!(parse_error(interval_to_chord(0, "M/x", 0, true, "C")), "Invalid bass interval: x");
    assert_eq!(interval_to_chord(200, "maj7/250", 100, false, "G").unwrap(), "Cmaj7/A#");
    assert_eq!(interval_to_chord(1, "", 0, true, "C").unwrap(), "Db");
}

#[test]
fn roman_numerals_are_read() {
    assert_eq!(parse_error(parse_roman_numeral("")), "Empty roman numeral");
    assert_eq!(parse_error(parse_roman_numeral("  ")), "Empty roman numeral");
    assert_eq!(
        parse_error(parse_roman_numeral(" xyz")),
        "No valid roman numeral found in:  xyz"
    );
    assert!(parse_roman_numeral("bad").is_err());
    assert!(parse_roman_numeral("b").is_err());

    let half = parse_roman_numeral("viiø7").unwrap();
    assert_eq!(half.degree, 7);
    assert!(half.is_minor);
    assert_eq!(half.suffix, "m7b5");
    assert_eq!(parse_roman_numeral("iiø").unwrap().suffix, "m7b5");
    assert_eq!(parse_roman_numeral("V+").unwrap().suffix, "aug");
    assert_eq!(parse_roman_numeral("V+7").unwrap().suffix, "aug7");
    assert_eq!(parse_roman_numeral("Imaj7").unwrap().suffix, "M7");
    assert_eq!(parse_roman_numeral("viidim7").unwrap().suffix, "°7");

    let sharp = parse_roman_numeral(" #iv ").unwrap();
    assert_eq!(sharp.degree, 4);
    assert_eq!(sharp.accidental, Some(Accidental::Sharp));
    assert!(sharp.is_minor);

    let slash = parse_roman_numeral("V7/5").unwrap();
    assert_eq!(slash.suffix, "7/5");
    assert_eq!(slash.bass, Some("5".to_string()));

    let six = parse_roman_numeral("VI").unwrap();
    assert_eq!(six.degree, 6);
    let four = parse_roman_numeral("IV").unwrap();
    assert_eq!(four.degree, 4);
    let three = parse_roman_numeral("iii").unwrap();
    assert_eq!(three.degree, 3);
}

#[test]
fn roman_numerals_become_chords() {
    assert_eq!(roman_numeral_to_chord("vii°", "C", true).unwrap(), "Bdim");
    assert_eq!(roman_numeral_to_chord("vii°7", "C", true).unwrap(), "Bdim7");
    assert_eq!(roman_numeral_to_chord("viiø7", "C", true).unwrap(), "Bm7b5");
    assert_eq!(roman_numeral_to_chord("III+", "C", true).unwrap(), "Eaug");
    assert_eq!(roman_numeral_to_chord("iii+", "C", true).unwrap(), "Eaug");
    assert_eq!(roman_numeral_to_chord("III/5", "C", true).unwrap(), "E/B");
    assert_eq!(roman_numeral_to_chord("i/3", "C", true).unwrap(), "Cm/Eb");
    assert_eq!(roman_numeral_to_chord("I/3", "C", true).unwrap(), "C/E");
    assert_eq!(roman_numeral_to_chord("I/x", "C", true).unwrap(), "C/x");
    assert_eq!(roman_numeral_to_chord("#iv", "C", true).unwrap(), "F#m");
    assert_eq!(roman_numeral_to_chord("bVII", "F", true).unwrap(), "Eb");
    assert_eq!(roman_numeral_to_chord("bIV", "Gb", true).unwrap(), "Bb");
    assert_eq!(roman_numeral_to_chord("Imaj7", "G", true).unwrap(), "GM7");
    assert!(matches!(roman_numeral_to_chord("I", "H", true), Err(MusicError::InvalidKey(_))));
}

#[test]
fn scale_degrees_and_accidentals() {
    assert_eq!(parse_error(get_scale_degree_note(8, "C", true)), "Invalid scale degree: 8");
    assert_eq!(parse_error(get_scale_degree_note(0, "C", true)), "Invalid scale degree: 0");
    assert!(matches!(get_scale_degree_note(1, "H", true), Err(MusicError::InvalidKey(_))));
    assert_eq!(get_scale_degree_note(7, "F#", false).unwrap(), "F");
    assert_eq!(apply_accidental_to_note("Ebb", Some(Accidental::Flat)).unwrap(), "Ebbb");
    assert_eq!(apply_accidental_to_note("F##", Some(Accidental::Sharp)).unwrap(), "F###");
    assert_eq!(apply_accidental_to_note("F#", Some(Accidental::DoubleFlat)).unwrap(), "Fb");
    assert_eq!(apply_accidental_to_note("Bb", Some(Accidental::DoubleSharp)).unwrap(), "B#");
    assert_eq!(apply_accidental_to_note("G", Some(Accidental::DoubleSharp)).unwrap(), "G##");
    assert_eq!(apply_accidental_to_note("G", Some(Accidental::DoubleFlat)).unwrap(), "Gbb");
    assert_eq!(apply_accidental_to_note("", None).unwrap(), "");
    assert_eq!(parse_error(apply_accidental_to_note("", Some(Accidental::Flat))), "Empty note");
}

#[test]
fn display_numerals() {
    assert_eq!(parse_error(get_chord_numeral("", "C")), "Chord cannot be empty");
    assert_eq!(parse_error(get_chord_numeral("/E", "C")), "Invalid chord format");
    assert_eq!(parse_error(get_chord_numeral("C", "")), "Key cannot be empty");
    assert_eq!(parse_error(get_chord_numeral("Hm", "C")), "Invalid note letter: H");
    assert_eq!(parse_error(get_chord_numeral("C", "x")), "Invalid key letter: X");
    assert!(matches!(get_chord_numeral("C", "c"), Err(MusicError::InvalidKey(_))));
    assert_eq!(get_chord_numeral("C/E", "C").unwrap(), "I/E");
    assert_eq!(get_chord_numeral("G7", "C").unwrap(), "V7");
    assert_eq!(get_chord_numeral("Cmaj7", "C").unwrap(), "Imaj7");
    assert_eq!(get_chord_numeral("Bdim", "C").unwrap(), "vii°");
    assert_eq!(get_chord_numeral("Caug", "C").unwrap(), "I+");
    assert_eq!(get_chord_numeral("Csus4", "C").unwrap(), "Isus");
    assert_eq!(get_chord_numeral("Dm7b5", "C").unwrap(), "ii7");
    assert_eq!(get_chord_numeral("C6", "C").unwrap(), "I6");
    assert_eq!(get_chord_numeral("Dm6", "C").unwrap(), "ii6");
    assert_eq!(get_chord_numeral("E#", "C").unwrap(), "#III");
    assert_eq!(get_chord_numeral("Fb", "C").unwrap(), "bIV");
    assert_eq!(get_display_numeral("C/E", "C").unwrap(), "I/E");
    assert_eq!(get_display_numeral("Bb/ F ", "C").unwrap(), "bVII/F");
    assert_eq!(roman_numeral_for_display("bVII/5", "Bb/F").unwrap(), "bVII/F");
    assert_eq!(roman_numeral_for_display("bVII/5", "Bb").unwrap(), "bVII/5");
    assert_eq!(roman_numeral_for_display("bVII", "Bb/F").unwrap(), "bVII");
}

#[test]
fn lookup_numerals() {
    assert_eq!(get_chord_numeral_for_lookup("C/E", "C").unwrap(), "I/3");
    assert_eq!(get_chord_numeral_for_lookup("Am/C", "C").unwrap(), "vi/3");
    assert_eq!(get_chord_numeral_for_lookup("Am/C#", "C").unwrap(), "vi/#3");
    assert_eq!(get_chord_numeral_for_lookup("Bdim", "C").unwrap(), "vii°");
    assert_eq!(get_chord_numeral_for_lookup("Cdim7", "C").unwrap(), "i°7");
    assert_eq!(get_chord_numeral_for_lookup("C°", "C").unwrap(), "i°");
    assert_eq!(get_chord_numeral_for_lookup("Caug", "C").unwrap(), "I+");
    assert_eq!(get_chord_numeral_for_lookup("C+7", "C").unwrap(), "I+");
    assert_eq!(get_chord_numeral_for_lookup("Caug7", "C").unwrap(), "I+7");
    assert_eq!(get_chord_numeral_for_lookup("Cm7b5", "C").unwrap(), "iø7");
    assert_eq!(get_chord_numeral_for_lookup("CmM7", "C").unwrap(), "iM7");
    assert_eq!(get_chord_numeral_for_lookup("Cmaj9", "C").unwrap(), "IM9");
    assert_eq!(get_chord_numeral_for_lookup("Cmaj", "C").unwrap(), "I");
    assert_eq!(get_chord_numeral_for_lookup("C(add9)", "C").unwrap(), "Iadd9");
    assert_eq!(parse_error(get_chord_numeral_for_lookup("", "C")), "Chord cannot be empty");
    assert_eq!(parse_error(get_chord_numeral_for_lookup("/E", "C")), "Invalid chord format");
    assert!(matches!(get_chord_numeral_for_lookup("C/H", "C"), Err(MusicError::InvalidKey(_))));
    assert_eq!(format_suffix_for_lookup("dim7", true, false, false), "°7");
    assert_eq!(format_suffix_for_lookup("dim7", false, false, false), "dim7");
    assert_eq!(format_suffix_for_lookup("m7", false, false, true), "7");
    assert_eq!(format_suffix_for_lookup("m7", false, false, false), "m7");
    assert_eq!(get_bass_chord_tone_for_lookup("C", "Eb", "", false).unwrap(), "b3");
    assert_eq!(get_bass_chord_tone_for_lookup("C", "Eb", "", true).unwrap(), "3");
    assert_eq!(get_bass_chord_tone_for_lookup("C", "B", "", true).unwrap(), "7");
}

#[test]
fn midi_numbers() {
    assert_eq!(parse_error(note_to_midi("C", 10)), "MIDI note out of range");
    assert_eq!(parse_error(note_to_midi("C", -2)), "MIDI note out of range");
    assert_eq!(parse_error(note_to_midi("H", 4)), "Invalid note: H");
    assert_eq!(parse_error(note_to_midi("Cb", 4)), "Invalid note: Cb");
    assert_eq!(parse_error(note_to_midi("G#", 9)), "MIDI note out of range");
    assert_eq!(note_to_midi("C", -1).unwrap(), 0);
    assert_eq!(note_to_midi("G", 9).unwrap(), 127);
    assert_eq!(note_to_midi("Bb", 3).unwrap(), 58);
    assert_eq!(parse_error(midi_to_note(128)), "MIDI note out of range");
    assert_eq!(midi_to_note(0).unwrap(), "C-1");
    assert_eq!(midi_to_note(127).unwrap(), "G9");
    let low = midi_to_audio_note(0).unwrap();
    assert_eq!((low.note.as_str(), low.octave), ("A", 0));
    let high = midi_to_audio_note(200).unwrap();
    assert_eq!((high.note.as_str(), high.octave), ("C", 5));
    let kept = midi_to_audio_note(61).unwrap();
    assert_eq!((kept.note.as_str(), kept.octave), ("C#", 4));
}

fn voiced(notes: &[&str], base: i8, style: VoicingStyle) -> Vec<(String, i8)> {
    voice_chord(&names(notes), "", base, style)
        .unwrap()
        .into_iter()
        .map(|n| (n.note, n.octave))
        .collect()
}

fn pairs(expected: &[(&str, i8)]) -> Vec<(String, i8)> {
    expected.iter().map(|(n, o)| (n.to_string(), *o)).collect()
}

#[test]
fn voicing_styles() {
    assert_eq!(
        voiced(&["C", "E", "G", "B", "D"], 3, VoicingStyle::Wide),
        pairs(&[("C", 3), ("E", 3), ("G", 4), ("B", 4), ("C", 5)])
    );
    assert_eq!(
        voiced(&["G", "C", "E"], 3, VoicingStyle::Close),
        pairs(&[("G", 3), ("C", 4), ("E", 4)])
    );
    assert_eq!(
        voiced(&["Db", "F"], 3, VoicingStyle::Close),
        pairs(&[("Db", 3), ("F", 3)])
    );
    assert_eq!(voiced(&["C", "E"], 0, VoicingStyle::Close), pairs(&[("A", 0), ("A", 0)]));
    assert!(voiced(&[], 3, VoicingStyle::Wide).is_empty());
    assert!(voiced(&[], 3, VoicingStyle::Close).is_empty());
    assert_eq!(
        parse_error(voice_chord(&names(&["C", "H"]), "", 3, VoicingStyle::Close)),
        "Invalid note: H"
    );
    assert_eq!(
        parse_error(voice_chord(&names(&["H"]), "", 3, VoicingStyle::Close)),
        "Invalid note: H"
    );
    assert_eq!(voiced(&["C", "E"], 10, VoicingStyle::Wide), pairs(&[("C", 5), ("C", 5)]));
    assert_eq!(voiced(&["D", "E"], 127, VoicingStyle::Close), pairs(&[("C", 5), ("C", 5)]));
    assert_eq!(voiced(&["D", "E"], -128, VoicingStyle::Close), pairs(&[("A", 0), ("A", 0)]));
    let long = vec!["C"; 600];
    let mut expected = vec![("C", 3), ("C", 3), ("C", 4), ("C", 4)];
    expected.resize(600, ("C", 5));
    assert_eq!(voiced(&long, 3, VoicingStyle::Wide), pairs(&expected));
    let mut rising = vec![("C", 3), ("C", 4), ("C", 5)];
    rising.resize(600, ("C", 5));
    assert_eq!(voiced(&long, 3, VoicingStyle::Close), pairs(&rising));
}

fn led(state: &mut VoicingState, notes: &[&str], bass: &str) -> Vec<(String, i8)> {
    voice_chord_with_leading(state, &names(notes), bass, 3)
        .unwrap()
        .into_iter()
        .map(|n| (n.note, n.octave))
        .collect()
}

#[test]
fn voice_leading_follows_the_chord_before() {
    let mut state = VoicingState::new();
    assert_eq!(led(&mut state, &["C", "E", "G"], "C"), pairs(&[("C", 2), ("E", 2), ("G", 2)]));
    assert_eq!(led(&mut state, &["G", "B", "D"], "G"), pairs(&[("G", 2), ("B", 2), ("D", 3)]));
}

#[test]
fn only_the_first_bass_note_leaves_the_upper_voices() {
    let mut state = VoicingState::new();
    assert_eq!(
        led(&mut state, &["E", "C", "E", "G"], "E"),
        pairs(&[("E", 2), ("G", 2), ("C", 3), ("E", 3)])
    );
}

#[test]
fn upper_voices_are_named_with_sharps() {
    let mut state = VoicingState::new();
    assert_eq!(led(&mut state, &["C", "Eb", "G"], "C"), pairs(&[("C", 2), ("D#", 2), ("G", 2)]));
}

#[test]
fn a_bass_alone_is_remembered_too() {
    let mut state = VoicingState::new();
    led(&mut state, &["B", "A"], "B");
    assert_eq!(led(&mut state, &["C"], "C"), pairs(&[("C", 2)]));
    assert_eq!(led(&mut state, &["C", "E", "G"], "C"), pairs(&[("C", 2), ("E", 2), ("G", 2)]));
}

#[test]
fn an_error_leaves_the_state_as_it_was() {
    let mut state = VoicingState::new();
    assert_eq!(led(&mut state, &["B", "A"], "B"), pairs(&[("B", 2), ("A", 3)]));
    assert_eq!(
        parse_error(voice_chord_with_leading(&mut state, &names(&["C", "H"]), "C", 3)),
        "Invalid note: H"
    );
    assert_eq!(
        parse_error(voice_chord_with_leading(&mut state, &names(&["C", "E"]), "X", 3)),
        "Invalid note: X"
    );
    assert_eq!(led(&mut state, &["C", "E", "G"], "C"), pairs(&[("C", 2), ("E", 3), ("G", 3)]));
    assert_eq!(led(&mut state, &["X"], "X"), pairs(&[("X", 2)]));
}

#[test]
fn chord_names_and_figures() {
    assert_eq!(normalize_quality("half-diminished7"), "m7b5");
    assert_eq!(normalize_quality("sus4"), "sus4");
    assert_eq!(normalize_quality("whatever"), "whatever");
    assert!(is_seventh_chord("dominant7"));
    assert!(!is_seventh_chord("major"));
    assert_eq!(get_inversion_figures(None, true), ("", ""));
    assert_eq!(get_inversion_figures(Some("root"), false), ("", ""));
    assert_eq!(get_inversion_figures(Some("first"), false), ("6", ""));
    assert_eq!(get_inversion_figures(Some("second"), false), ("6", "4"));
    assert_eq!(get_inversion_figures(Some("third"), false), ("", ""));
    assert_eq!(get_inversion_figures(Some("first"), true), ("6", "5"));
    assert_eq!(get_inversion_figures(Some("second"), true), ("4", "3"));
    assert_eq!(get_inversion_figures(Some("third"), true), ("4", "2"));
    assert_eq!(format_display_name("C", "minor", Some("second")), "Cm|6|4");
    assert_eq!(format_display_name("C", "minor", None), "Cm");
    assert_eq!(format_display_name("F", "half-diminished7", Some("first")), "Fø7|6|5");
    assert_eq!(format_display_name("F", "13", Some("first")), "F13|6|");
}

#[test]
fn semitones_above_c() {
    assert_eq!(note_to_semitone("Cb"), Some(11));
    assert_eq!(note_to_semitone("c#"), Some(1));
    assert_eq!(note_to_semitone("B#x#"), Some(1));
    assert_eq!(note_to_semitone("H"), None);
    assert_eq!(note_to_semitone(""), None);
    assert_eq!(note_to_semitone("Cbbbbbbbbbbbbbbbb"), Some(-4));
}

#[test]
fn chord_pitches_edges() {
    let wrong_root = ChordRequest {
        root: "H".to_string(),
        quality: "major".to_string(),
        root_octave: 3,
        inversion: None,
    };
    assert_eq!(generate_chord_pitches(wrong_root).unwrap_err(), "Invalid root note: H");

    let lower_case = ChordRequest {
        root: "c".to_string(),
        quality: "major".to_string(),
        root_octave: 3,
        inversion: None,
    };
    assert_eq!(
        generate_chord_pitches(lower_case).unwrap_err(),
        "Spelling error: Invalid key: c"
    );

    let third = ChordRequest {
        root: "G".to_string(),
        quality: "dominant7".to_string(),
        root_octave: 2,
        inversion: Some("third".to_string()),
    };
    let response = generate_chord_pitches(third).unwrap();
    let got: Vec<(String, u8)> =
        response.pitches.into_iter().map(|p| (p.note, p.octave)).collect();
    assert_eq!(
        got,
        vec![
            ("F".to_string(), 2),
            ("G".to_string(), 2),
            ("B".to_string(), 2),
            ("D".to_string(), 3)
        ]
    );
    assert_eq!(response.display_name, "G7|4|2");

    let turned_round = ChordRequest {
        root: "C".to_string(),
        quality: "major".to_string(),
        root_octave: 0,
        inversion: Some("third".to_string()),
    };
    let response = generate_chord_pitches(turned_round).unwrap();
    let got: Vec<(String, u8)> =
        response.pitches.into_iter().map(|p| (p.note, p.octave)).collect();
    assert_eq!(
        got,
        vec![("C".to_string(), 0), ("E".to_string(), 0), ("G".to_string(), 0)]
    );

    let b_sharp = ChordRequest {
        root: "B#".to_string(),
        quality: "5".to_string(),
        root_octave: 3,
        inversion: None,
    };
    let response = generate_chord_pitches(b_sharp).unwrap();
    let got: Vec<(String, u8)> =
        response.pitches.into_iter().map(|p| (p.note, p.octave)).collect();
    assert_eq!(got, vec![("B#".to_string(), 2), ("F##".to_string(), 3)]);
}

#[test]
fn notes_are_brought_into_range() {
    let mut kept = AudioNote { note: "Db".to_string(), octave: 3 };
    clamp_audio_note(&mut kept, 21, 72).unwrap();
    assert_eq!((kept.note.as_str(), kept.octave), ("Db", 3));

    let mut low = AudioNote { note: "Db".to_string(), octave: -100 };
    clamp_audio_note(&mut low, 21, 72).unwrap();
    assert_eq!((low.note.as_str(), low.octave), ("A", 0));

    let mut high = AudioNote { note: "Db".to_string(), octave: 127 };
    clamp_audio_note(&mut high, 21, 72).unwrap();
    assert_eq!((high.note.as_str(), high.octave), ("C", 5));

    let mut top = AudioNote { note: "C".to_string(), octave: 4 };
    clamp_audio_note(&mut top, 200, 255).unwrap();
    assert_eq!((top.note.as_str(), top.octave), ("G#", 15));

    let mut crossed = AudioNote { note: "C".to_string(), octave: 4 };
    clamp_audio_note(&mut crossed, 70, 50).unwrap();
    assert_eq!((crossed.note.as_str(), crossed.octave), ("D", 3));

    let mut unknown = AudioNote { note: "H".to_string(), octave: 3 };
    assert_eq!(parse_error(clamp_audio_note(&mut unknown, 21, 72)), "Invalid note: H");
    assert_eq!((unknown.note.as_str(), unknown.octave), ("H", 3));
}

#[test]
fn octaves_of_the_styles() {
    assert_eq!(calc_close_voicing_octave("E", 3, None, 0).unwrap(), 3);
    assert_eq!(calc_close_voicing_octave("E", 3, Some("C"), 3).unwrap(), 3);
    assert_eq!(calc_close_voicing_octave("C", 3, Some("E"), 3).unwrap(), 4);
    assert_eq!(calc_close_voicing_octave("E", 2, Some("C"), 3).unwrap(), 3);
    assert_eq!(calc_close_voicing_octave("C", 2, Some("C"), 5).unwrap(), 6);
    assert_eq!(
        parse_error(calc_close_voicing_octave("C", 2, Some("H"), 5)),
        "Invalid note: H"
    );
    assert_eq!(
        parse_error(calc_close_voicing_octave("J", 2, Some("H"), 5)),
        "Invalid note: H"
    );
    assert_eq!(apply_close_voicing(&names(&["G", "C", "E", "D"]), 3).unwrap(), vec![3, 4, 4, 5]);
    assert_eq!(apply_close_voicing(&names(&["H"]), 3).unwrap(), vec![3]);
    assert_eq!(apply_wide_voicing(&names(&["C", "E", "G", "B", "D"]), -1), vec![-1, -1, 0, 0, 1]);
}
