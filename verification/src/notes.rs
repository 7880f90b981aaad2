//! Note names and pitch classes, key signatures, and the preferred spelling
//! of a pitch class in a key.

use crate::text::{chars_of, is_text};
use crate::types::{outcome, Failure, MusicError, MusicResult};
use vstd::prelude::*;
use vstd::string::*;

verus! {

/// Whether a key is written with sharps, with flats, or with neither.
#[derive(Debug, Clone, Copy, PartialEq, Eq, Structural)]
pub enum KeyType {
    Sharp,
    Flat,
    Neutral,
}

/// The pitch class of a natural note, by its letter.
pub open spec fn letter_pitch(c: char) -> Option<int> {
    if c == 'C' {
        Some(0)
    } else if c == 'D' {
        Some(2)
    } else if c == 'E' {
        Some(4)
    } else if c == 'F' {
        Some(5)
    } else if c == 'G' {
        Some(7)
    } else if c == 'A' {
        Some(9)
    } else if c == 'B' {
        Some(11)
    } else {
        None
    }
}

/// The number of semitones by which an accidental raises a note: nothing,
/// one or two sharps, one or two flats.
pub open spec fn accidental_shift(a: Seq<char>) -> Option<int> {
    if a.len() == 0 {
        Some(0)
    } else if a.len() == 1 && a[0] == '#' {
        Some(1)
    } else if a.len() == 1 && a[0] == 'b' {
        Some(-1)
    } else if a.len() == 2 && a[0] == '#' && a[1] == '#' {
        Some(2)
    } else if a.len() == 2 && a[0] == 'b' && a[1] == 'b' {
        Some(-2)
    } else {
        None
    }
}

/// The pitch class `0..=11` of a note name: a letter `A` to `G` followed by
/// at most two sharps or at most two flats. Any other text names no note.
pub open spec fn pitch_class(note: Seq<char>) -> Option<int> {
    if note.len() == 0 {
        None
    } else {
        match (letter_pitch(note[0]), accidental_shift(note.skip(1))) {
            (Some(l), Some(a)) => Some((l + a + 12) % 12),
            _ => None,
        }
    }
}

/// What [`note_index`] returns.
pub open spec fn note_index_spec(note: Seq<char>) -> Result<u8, Failure> {
    match pitch_class(note) {
        Some(p) => Ok(p as u8),
        None => Err(Failure::InvalidKey(note)),
    }
}

/// The pitch class of a natural note letter.
pub fn letter_to_pitch(c: char) -> (r: Option<u8>)
    ensures
        r is Some <==> letter_pitch(c) is Some,
        r is Some ==> r->0 as int == letter_pitch(c)->0,
{
    if c == 'C' {
        Some(0)
    } else if c == 'D' {
        Some(2)
    } else if c == 'E' {
        Some(4)
    } else if c == 'F' {
        Some(5)
    } else if c == 'G' {
        Some(7)
    } else if c == 'A' {
        Some(9)
    } else if c == 'B' {
        Some(11)
    } else {
        None
    }
}

/// The pitch class of the note named by `v`, if it names one.
pub fn pitch_class_of(v: &Vec<char>) -> (r: Option<u8>)
    ensures
        r is Some <==> pitch_class(v@) is Some,
        r is Some ==> r->0 as int == pitch_class(v@)->0 && r->0 < 12,
{
    if v.len() == 0 || v.len() > 3 {
        return None;
    }
    let letter = match letter_to_pitch(v[0]) {
        Some(l) => l,
        None => { return None; },
    };
    // The shift is kept as an offset from 12 so that it is never negative.
    let shift: u8 = if v.len() == 1 {
        12
    } else if v.len() == 2 && v[1] == '#' {
        13
    } else if v.len() == 2 && v[1] == 'b' {
        11
    } else if v.len() == 3 && v[1] == '#' && v[2] == '#' {
        14
    } else if v.len() == 3 && v[1] == 'b' && v[2] == 'b' {
        10
    } else {
        return None;
    };
    Some((letter + shift) % 12)
}

/// The pitch class `0..=11` of a note name, or `InvalidKey` with the name
/// when the text names no note.
pub fn note_index(note: &str) -> (r: MusicResult<u8>)
    ensures
        outcome(r) == note_index_spec(note@),
        r is Ok ==> r->Ok_0 < 12,
{
    let v = chars_of(note);
    match pitch_class_of(&v) {
        Some(p) => Ok(p),
        None => Err(MusicError::InvalidKey(String::from_str(note))),
    }
}

/// Whether a key signature is written with sharps or flats: ten key names
/// count as sharp keys, seven as flat keys, every other text as neutral.
pub open spec fn key_signature_type(key: Seq<char>) -> KeyType {
    if key == "G"@ || key == "D"@ || key == "A"@ || key == "E"@ || key == "B"@ || key == "F#"@
        || key == "C#"@ || key == "G#"@ || key == "D#"@ || key == "A#"@ {
        KeyType::Sharp
    } else if key == "F"@ || key == "Bb"@ || key == "Eb"@ || key == "Ab"@ || key == "Db"@ || key
        == "Gb"@ || key == "Cb"@ {
        KeyType::Flat
    } else {
        KeyType::Neutral
    }
}

/// Whether the key named by `v` is a sharp key, a flat key or neutral.
pub fn key_type_of(v: &Vec<char>) -> (r: KeyType)
    ensures
        r == key_signature_type(v@),
{
    if is_text(v, "G") || is_text(v, "D") || is_text(v, "A") || is_text(v, "E") || is_text(v, "B")
        || is_text(v, "F#") || is_text(v, "C#") || is_text(v, "G#") || is_text(v, "D#") || is_text(
        v,
        "A#",
    ) {
        KeyType::Sharp
    } else if is_text(v, "F") || is_text(v, "Bb") || is_text(v, "Eb") || is_text(v, "Ab")
        || is_text(v, "Db") || is_text(v, "Gb") || is_text(v, "Cb") {
        KeyType::Flat
    } else {
        KeyType::Neutral
    }
}

/// Whether a key uses sharps, flats, or neither.
pub fn get_key_signature_type(key: &str) -> (r: KeyType)
    ensures
        r == key_signature_type(key@),
{
    let v = chars_of(key);
    key_type_of(&v)
}

/// The name of a pitch class in the chromatic scale written with sharps.
pub open spec fn sharp_name(pitch: int) -> Seq<char> {
    if pitch == 0 {
        "C"@
    } else if pitch == 1 {
        "C#"@
    } else if pitch == 2 {
        "D"@
    } else if pitch == 3 {
        "D#"@
    } else if pitch == 4 {
        "E"@
    } else if pitch == 5 {
        "F"@
    } else if pitch == 6 {
        "F#"@
    } else if pitch == 7 {
        "G"@
    } else if pitch == 8 {
        "G#"@
    } else if pitch == 9 {
        "A"@
    } else if pitch == 10 {
        "A#"@
    } else {
        "B"@
    }
}

/// The name of a pitch class in the chromatic scale written with flats.
pub open spec fn flat_name(pitch: int) -> Seq<char> {
    if pitch == 0 {
        "C"@
    } else if pitch == 1 {
        "Db"@
    } else if pitch == 2 {
        "D"@
    } else if pitch == 3 {
        "Eb"@
    } else if pitch == 4 {
        "E"@
    } else if pitch == 5 {
        "F"@
    } else if pitch == 6 {
        "Gb"@
    } else if pitch == 7 {
        "G"@
    } else if pitch == 8 {
        "Ab"@
    } else if pitch == 9 {
        "A"@
    } else if pitch == 10 {
        "Bb"@
    } else {
        "B"@
    }
}

/// Whether notes in `key` are spelled with flats: a flat key always is, a
/// sharp key never, and a neutral key follows the caller's preference.
pub open spec fn prefers_flats(key: Seq<char>, use_flats: bool) -> bool {
    match key_signature_type(key) {
        KeyType::Flat => true,
        KeyType::Sharp => false,
        KeyType::Neutral => use_flats,
    }
}

/// The spelling of a semitone (taken modulo 12) in a key.
#[verifier::opaque]
pub open spec fn preferred_note_name(semitone: int, key: Seq<char>, use_flats: bool) -> Seq<char> {
    if prefers_flats(key, use_flats) {
        flat_name(semitone % 12)
    } else {
        sharp_name(semitone % 12)
    }
}

/// The name of pitch class `pitch` with sharps.
pub fn sharp_name_of(pitch: u8) -> (r: &'static str)
    requires
        pitch < 12,
    ensures
        r@ == sharp_name(pitch as int),
{
    if pitch == 0 {
        "C"
    } else if pitch == 1 {
        "C#"
    } else if pitch == 2 {
        "D"
    } else if pitch == 3 {
        "D#"
    } else if pitch == 4 {
        "E"
    } else if pitch == 5 {
        "F"
    } else if pitch == 6 {
        "F#"
    } else if pitch == 7 {
        "G"
    } else if pitch == 8 {
        "G#"
    } else if pitch == 9 {
        "A"
    } else if pitch == 10 {
        "A#"
    } else {
        "B"
    }
}

/// The name of pitch class `pitch` with flats.
pub fn flat_name_of(pitch: u8) -> (r: &'static str)
    requires
        pitch < 12,
    ensures
        r@ == flat_name(pitch as int),
{
    if pitch == 0 {
        "C"
    } else if pitch == 1 {
        "Db"
    } else if pitch == 2 {
        "D"
    } else if pitch == 3 {
        "Eb"
    } else if pitch == 4 {
        "E"
    } else if pitch == 5 {
        "F"
    } else if pitch == 6 {
        "Gb"
    } else if pitch == 7 {
        "G"
    } else if pitch == 8 {
        "Ab"
    } else if pitch == 9 {
        "A"
    } else if pitch == 10 {
        "Bb"
    } else {
        "B"
    }
}

/// The spelling of `semitone` (taken modulo 12) for the key named by `key`.
pub fn preferred_name_in(semitone: u8, key: &Vec<char>, use_flats: bool) -> (r: &'static str)
    ensures
        r@ == preferred_note_name(semitone as int, key@, use_flats),
{
    reveal(preferred_note_name);
    let flats = match key_type_of(key) {
        KeyType::Flat => true,
        KeyType::Sharp => false,
        KeyType::Neutral => use_flats,
    };
    if flats {
        flat_name_of(semitone % 12)
    } else {
        sharp_name_of(semitone % 12)
    }
}

/// The spelling of a semitone in a key: from the scale with flats in a flat
/// key, from the scale with sharps in a sharp key, and by `use_flats` in any
/// other key.
pub fn get_preferred_note_name(semitone: u8, key: &str, use_flats: bool) -> (r: &'static str)
    ensures
        r@ == preferred_note_name(semitone as int, key@, use_flats),
{
    let k = chars_of(key);
    preferred_name_in(semitone, &k, use_flats)
}

/// The text of an accidental that raises a note by `shift` semitones, from
/// two flats (-2) to two sharps (2).
pub open spec fn accidental_text(shift: int) -> Seq<char> {
    if shift == 1 {
        seq!['#']
    } else if shift == 2 {
        seq!['#', '#']
    } else if shift == -1 {
        seq!['b']
    } else if shift == -2 {
        seq!['b', 'b']
    } else {
        Seq::empty()
    }
}

/// The note name made of a letter and an accidental.
pub open spec fn spelled(letter: char, shift: int) -> Seq<char> {
    seq![letter] + accidental_text(shift)
}

/// The pitch class of a spelled note is that of its letter, moved by its
/// accidental.
pub proof fn lemma_spelled_pitch(letter: char, shift: int)
    requires
        letter_pitch(letter) is Some,
        -2 <= shift <= 2,
    ensures
        pitch_class(spelled(letter, shift)) == Some((letter_pitch(letter)->0 + shift + 12) % 12),
{
    let name = spelled(letter, shift);
    assert(name[0] == letter);
    assert(name.skip(1) =~= accidental_text(shift));
}

/// Two spellings of one pitch have the same index: a sharpened note and
/// the flattened note above it, a `B#` and a `C`, and every other pair of
/// a letter with an accidental that comes to the same pitch class.
pub proof fn lemma_enharmonic_spellings(letter: char, shift: int, other: char, other_shift: int)
    requires
        letter_pitch(letter) is Some,
        letter_pitch(other) is Some,
        -2 <= shift <= 2,
        -2 <= other_shift <= 2,
        (letter_pitch(letter)->0 + shift - letter_pitch(other)->0 - other_shift) % 12 == 0,
    ensures
        note_index_spec(spelled(letter, shift)) is Ok,
        note_index_spec(spelled(letter, shift)) == note_index_spec(spelled(other, other_shift)),
{
    lemma_spelled_pitch(letter, shift);
    lemma_spelled_pitch(other, other_shift);
    let d = letter_pitch(letter)->0 + shift - letter_pitch(other)->0 - other_shift;
    assert(-15 <= d <= 15);
    assert(d == 0 || d == 12 || d == -12);
}

/// Whether `name` is a letter `A` to `G`, alone or with one `#` or `b`.
pub open spec fn plain_note_name(name: Seq<char>) -> bool {
    &&& 1 <= name.len() <= 2
    &&& letter_pitch(name[0]) is Some
    &&& name.len() == 2 ==> name[1] == '#' || name[1] == 'b'
}

/// The names of both chromatic scales are plain note names, and each names
/// the pitch class it stands for.
pub proof fn lemma_scale_names(pitch: int)
    requires
        0 <= pitch < 12,
    ensures
        plain_note_name(sharp_name(pitch)),
        plain_note_name(flat_name(pitch)),
        pitch_class(sharp_name(pitch)) == Some(pitch),
        pitch_class(flat_name(pitch)) == Some(pitch),
{
    reveal_strlit("C");
    reveal_strlit("C#");
    reveal_strlit("Db");
    reveal_strlit("D");
    reveal_strlit("D#");
    reveal_strlit("Eb");
    reveal_strlit("E");
    reveal_strlit("F");
    reveal_strlit("F#");
    reveal_strlit("Gb");
    reveal_strlit("G");
    reveal_strlit("G#");
    reveal_strlit("Ab");
    reveal_strlit("A");
    reveal_strlit("A#");
    reveal_strlit("Bb");
    reveal_strlit("B");
    assert("C"@.len() == 1 && "C"@[0] == 'C');
    assert("C#"@.len() == 2 && "C#"@[0] == 'C' && "C#"@[1] == '#');
    assert("Db"@.len() == 2 && "Db"@[0] == 'D' && "Db"@[1] == 'b');
    assert("D"@.len() == 1 && "D"@[0] == 'D');
    assert("D#"@.len() == 2 && "D#"@[0] == 'D' && "D#"@[1] == '#');
    assert("Eb"@.len() == 2 && "Eb"@[0] == 'E' && "Eb"@[1] == 'b');
    assert("E"@.len() == 1 && "E"@[0] == 'E');
    assert("F"@.len() == 1 && "F"@[0] == 'F');
    assert("F#"@.len() == 2 && "F#"@[0] == 'F' && "F#"@[1] == '#');
    assert("Gb"@.len() == 2 && "Gb"@[0] == 'G' && "Gb"@[1] == 'b');
    assert("G"@.len() == 1 && "G"@[0] == 'G');
    assert("G#"@.len() == 2 && "G#"@[0] == 'G' && "G#"@[1] == '#');
    assert("Ab"@.len() == 2 && "Ab"@[0] == 'A' && "Ab"@[1] == 'b');
    assert("A"@.len() == 1 && "A"@[0] == 'A');
    assert("A#"@.len() == 2 && "A#"@[0] == 'A' && "A#"@[1] == '#');
    assert("Bb"@.len() == 2 && "Bb"@[0] == 'B' && "Bb"@[1] == 'b');
    assert("B"@.len() == 1 && "B"@[0] == 'B');
    let sharp = sharp_name(pitch);
    let flat = flat_name(pitch);
    assert(sharp.len() == 2 ==> sharp.skip(1).len() == 1 && sharp.skip(1)[0] == '#');
    assert(flat.len() == 2 ==> flat.skip(1).len() == 1 && flat.skip(1)[0] == 'b');
    assert(sharp.len() == 1 ==> sharp.skip(1).len() == 0);
    assert(flat.len() == 1 ==> flat.skip(1).len() == 0);
}

/// The preferred name of a semitone in a key is a plain note name for the
/// semitone's pitch class.
pub proof fn lemma_preferred_name(semitone: int, key: Seq<char>, use_flats: bool)
    requires
        0 <= semitone,
    ensures
        plain_note_name(preferred_note_name(semitone, key, use_flats)),
        pitch_class(preferred_note_name(semitone, key, use_flats)) == Some(semitone % 12),
{
    reveal(preferred_note_name);
    lemma_scale_names(semitone % 12);
}

} // verus!
