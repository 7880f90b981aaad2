use music_theory::notes::{get_key_signature_type, get_preferred_note_name, note_index, KeyType};

#[test]
fn test_note_index() {
    assert_eq!(note_index("C").unwrap(), 0);
    assert_eq!(note_index("C#").unwrap(), 1);
    assert_eq!(note_index("Db").unwrap(), 1);
    assert_eq!(note_index("B").unwrap(), 11);
}

#[test]
fn test_enharmonic_equivalents() {
    assert_eq!(note_index("C#").unwrap(), note_index("Db").unwrap());
    assert_eq!(note_index("D#").unwrap(), note_index("Eb").unwrap());
    assert_eq!(note_index("E#").unwrap(), note_index("F").unwrap());
    assert_eq!(note_index("B#").unwrap(), note_index("C").unwrap());
}

#[test]
fn test_key_signature_type() {
    assert_eq!(get_key_signature_type("G"), KeyType::Sharp);
    assert_eq!(get_key_signature_type("D"), KeyType::Sharp);
    assert_eq!(get_key_signature_type("F"), KeyType::Flat);
    assert_eq!(get_key_signature_type("Bb"), KeyType::Flat);
    assert_eq!(get_key_signature_type("C"), KeyType::Neutral);
}

#[test]
fn test_preferred_note_name() {
    assert_eq!(get_preferred_note_name(1, "G", false), "C#");
    assert_eq!(get_preferred_note_name(1, "F", false), "Db");
    assert_eq!(get_preferred_note_name(1, "C", true), "Db");
    assert_eq!(get_preferred_note_name(1, "C", false), "C#");
}
