use music_theory::samples::note_to_sample_key;

#[test]
fn test_note_to_sample_key() {
    assert_eq!(note_to_sample_key("C", 4), "C4");
    assert_eq!(note_to_sample_key("C#", 4), "Cs4");
    assert_eq!(note_to_sample_key("Db", 3), "Cs3");
    assert_eq!(note_to_sample_key("F#", 2), "Fs2");
    assert_eq!(note_to_sample_key("Bb", 3), "As3");
}

#[test]
fn sample_key_of_other_flats_drops_the_flat() {
    assert_eq!(note_to_sample_key("Cb", 2), "C2");
    assert_eq!(note_to_sample_key("A", -1), "A-1");
}
