//! The names under which recorded notes are kept.

use crate::text::{
    chars_of, is_text, push_signed_decimal, replace_all, replaced, signed_decimal, string_of,
};
use vstd::prelude::*;
use vstd::string::*;

verus! {

/// The name of a note in a sample key: the five flats of the black keys by
/// the sharp of the same pitch; any other note with `s` for each `#` and
/// without its `b`s.
pub open spec fn sample_note(note: Seq<char>) -> Seq<char> {
    if note == "Db"@ {
        "Cs"@
    } else if note == "Eb"@ {
        "Ds"@
    } else if note == "Gb"@ {
        "Fs"@
    } else if note == "Ab"@ {
        "Gs"@
    } else if note == "Bb"@ {
        "As"@
    } else {
        replaced(replaced(note, "#"@, "s"@), "b"@, ""@)
    }
}

/// What [`note_to_sample_key`] returns: the name of the note in a sample
/// key, then the octave.
pub open spec fn sample_key(note: Seq<char>, octave: int) -> Seq<char> {
    sample_note(note) + signed_decimal(octave)
}

/// The key under which the sample of a note is kept: `C#` in octave 4 is
/// `Cs4`, `Db` in octave 3 is `Cs3`.
pub fn note_to_sample_key(note: &str, octave: i8) -> (r: String)
    ensures
        r@ == sample_key(note@, octave as int),
{
    let v = chars_of(note);
    let mut key: Vec<char> = if is_text(&v, "Db") {
        chars_of("Cs")
    } else if is_text(&v, "Eb") {
        chars_of("Ds")
    } else if is_text(&v, "Gb") {
        chars_of("Fs")
    } else if is_text(&v, "Ab") {
        chars_of("Gs")
    } else if is_text(&v, "Bb") {
        chars_of("As")
    } else {
        replace_all(&replace_all(&v, "#", "s"), "b", "")
    };
    push_signed_decimal(&mut key, octave);
    string_of(&key)
}

} // verus!
