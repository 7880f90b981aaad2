use music_theory::chords::transpose_chord;
use music_theory::notes::{get_preferred_note_name, note_index};
use music_theory::voice_leading::{
    note_to_midi, reset_voicing, voice_chord_with_leading, VoicingState,
};

fn names(notes: &[&str]) -> Vec<String> {
    notes.iter().map(|n| n.to_string()).collect()
}

#[test]
fn enharmonic_spellings_share_an_index() {
    let letters = [('C', 0i32), ('D', 2), ('E', 4), ('F', 5), ('G', 7), ('A', 9), ('B', 11)];
    let accidentals = [("bb", -2i32), ("b", -1), ("", 0), ("#", 1), ("##", 2)];
    for (letter, base) in letters {
        for (text, shift) in accidentals {
            for (other, other_base) in letters {
                for (other_text, other_shift) in accidentals {
                    if (base + shift - other_base - other_shift).rem_euclid(12) == 0 {
                        let one = format!("{}{}", letter, text);
                        let two = format!("{}{}", other, other_text);
                        assert_eq!(note_index(&one).unwrap(), note_index(&two).unwrap());
                    }
                }
            }
        }
    }
}

#[test]
fn every_spelled_note_has_the_pitch_of_letter_and_accidental() {
    assert_eq!(note_index("Cbb").unwrap(), 10);
    assert_eq!(note_index("B##").unwrap(), 1);
    assert_eq!(note_index("E#").unwrap(), 5);
    assert_eq!(note_index("Fb").unwrap(), 4);
    assert_eq!(note_index("G").unwrap(), 7);
}

#[test]
fn transposing_there_and_back_gives_the_chord_again() {
    let keys = ["C", "G", "D", "A", "E", "B", "F#", "F", "Bb", "Eb", "Ab", "Db", "Gb"];
    let suffixes = ["", "m", "7", "maj7", "m7b5", "sus4", "dim7", "add9"];
    for from in keys {
        for to in keys {
            for use_flats in [false, true] {
                for pitch in 0u8..12 {
                    let root = get_preferred_note_name(pitch, from, use_flats);
                    let bass = get_preferred_note_name((pitch + 7) % 12, from, use_flats);
                    for suffix in suffixes {
                        let plain = format!("{}{}", root, suffix);
                        let there = transpose_chord(&plain, from, to, use_flats).unwrap();
                        let back = transpose_chord(&there, to, from, use_flats).unwrap();
                        assert_eq!(back, plain);
                        let slash = format!("{}{}/{}", root, suffix, bass);
                        let there = transpose_chord(&slash, from, to, use_flats).unwrap();
                        let back = transpose_chord(&there, to, from, use_flats).unwrap();
                        assert_eq!(back, slash);
                    }
                }
            }
        }
    }
}

#[test]
fn the_empty_chord_transposes_to_itself() {
    assert_eq!(transpose_chord("", "C", "G", true).unwrap(), "");
    assert_eq!(transpose_chord("", "not a key", "G", true).unwrap(), "");
}

#[test]
fn a_suffix_that_reads_as_an_accidental_does_not_come_back() {
    // Bb with the suffix "b5" becomes C with "b5", which reads as Cb with "5".
    let there = transpose_chord("Bbb5", "C", "D", true).unwrap();
    assert_eq!(there, "Cb5");
    let back = transpose_chord(&there, "D", "C", true).unwrap();
    assert_eq!(back, "A5");
}

#[test]
fn a_root_spelled_against_the_key_comes_back_respelled() {
    let there = transpose_chord("D#m", "C", "G", true).unwrap();
    assert_eq!(there, "A#m");
    let back = transpose_chord(&there, "G", "C", true).unwrap();
    assert_eq!(back, "Ebm");
}

fn check_voicing(notes: &[&str], bass: &str, state: &mut VoicingState) -> Vec<u8> {
    let voicing = voice_chord_with_leading(state, &names(notes), bass, 3).unwrap();
    assert_eq!(voicing[0].note, bass);
    assert_eq!(voicing[0].octave, 2);
    let mut pitches = Vec::new();
    for voice in &voicing {
        let midi = note_to_midi(&voice.note, voice.octave).unwrap();
        assert!((21..=72).contains(&midi));
        pitches.push(midi);
    }
    for pair in pitches[1..].windows(2) {
        assert!(pair[0] <= pair[1]);
    }
    pitches
}

#[test]
fn every_led_voicing_has_its_bass_in_octave_two_and_ascending_upper_voices() {
    let mut state = VoicingState::new();
    let chords: [(&[&str], &str); 6] = [
        (&["C", "E", "G"], "C"),
        (&["G", "B", "D"], "G"),
        (&["A", "C", "E"], "A"),
        (&["F", "A", "C", "E"], "F"),
        (&["E", "C", "E", "G"], "E"),
        (&["Bb", "D", "F", "Ab"], "Bb"),
    ];
    for (notes, bass) in chords {
        let pitches = check_voicing(notes, bass, &mut state);
        for pair in pitches[1..].windows(2) {
            assert!(pair[0] < pair[1]);
        }
    }
}

#[test]
fn upper_voices_on_one_pitch_class_are_equal_not_ascending() {
    let mut state = VoicingState::new();
    let pitches = check_voicing(&["C", "E", "E"], "C", &mut state);
    assert_eq!(pitches, vec![36, 40, 40]);
}

#[test]
fn a_reset_state_behaves_as_a_new_one() {
    let mut used = VoicingState::new();
    voice_chord_with_leading(&mut used, &names(&["B", "A"]), "B", 3).unwrap();
    let led = check_voicing(&["C", "E", "G"], "C", &mut used);
    assert_eq!(led, vec![36, 52, 55]);

    let mut fresh = VoicingState::new();
    let first = check_voicing(&["C", "E", "G"], "C", &mut fresh);
    assert_eq!(first, vec![36, 40, 43]);

    let mut reset = VoicingState::new();
    voice_chord_with_leading(&mut reset, &names(&["B", "A"]), "B", 3).unwrap();
    reset_voicing(&mut reset);
    let after = check_voicing(&["C", "E", "G"], "C", &mut reset);
    assert_eq!(after, first);
}
