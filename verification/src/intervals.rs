//! Chord qualities as lists of chord tones, and the spelling of each tone as
//! a note name with the right letter.

use crate::chords::{parse_chord, parse_chord_spec};
use crate::notes::{letter_pitch, pitch_class, pitch_class_of};
use crate::text::{
    chars_of, is_text, lowered, push_signed_decimal, push_text, remove_chars, signed_decimal,
    string_of, to_lower, without,
};
use crate::types::{
    all_or_first_error, collected, lemma_collected_error, outcome, Failure, MusicError,
    MusicResult,
};
use vstd::prelude::*;
use vstd::string::*;

verus! {

/// Whether a looked-up list of tones is the one the table gives.
pub open spec fn tones_match(r: Option<Vec<(u8, u8)>>, m: Option<Seq<(u8, u8)>>) -> bool {
    match (r, m) {
        (Some(v), Some(s)) => v@ == s,
        (None, None) => true,
        _ => false,
    }
}

/// A list of chord tones is well formed when each tone lies at most 23
/// semitones above the root, has a scale degree from 1 to 7, and the tones
/// ascend.
pub open spec fn well_formed_tones(t: Seq<(u8, u8)>) -> bool {
    &&& forall|i: int| 0 <= i < t.len() ==> (#[trigger] t[i]).0 <= 23 && 1 <= t[i].1 <= 7
    &&& forall|i: int, j: int| 0 <= i < j < t.len() ==> (#[trigger] t[i]).0 < (#[trigger] t[j]).0
}

/// Triads and the power chord:
/// the tones of quality `q`, if `q` is one of them.
pub open spec fn triad_tones(q: Seq<char>) -> Option<Seq<(u8, u8)>> {
    if q == ""@ || q == "M"@ || q == "maj"@ || q == "major"@ {
        Some(seq![(0u8, 1u8), (4u8, 3u8), (7u8, 5u8)])
    } else if q == "m"@ || q == "min"@ || q == "minor"@ || q == "-"@ {
        Some(seq![(0u8, 1u8), (3u8, 3u8), (7u8, 5u8)])
    } else if q == "dim"@ || q == "°"@ || q == "o"@ {
        Some(seq![(0u8, 1u8), (3u8, 3u8), (6u8, 5u8)])
    } else if q == "aug"@ || q == "+"@ {
        Some(seq![(0u8, 1u8), (4u8, 3u8), (8u8, 5u8)])
    } else if q == "sus2"@ {
        Some(seq![(0u8, 1u8), (2u8, 2u8), (7u8, 5u8)])
    } else if q == "sus4"@ || q == "sus"@ {
        Some(seq![(0u8, 1u8), (5u8, 4u8), (7u8, 5u8)])
    } else if q == "5"@ {
        Some(seq![(0u8, 1u8), (7u8, 5u8)])
    } else {
        None
    }
}

/// Triads and the power chord, looked up by quality.
pub fn triad_tones_of(q: &Vec<char>) -> (r: Option<Vec<(u8, u8)>>)
    ensures
        tones_match(r, triad_tones(q@)),
{
    if is_text(q, "") || is_text(q, "M") || is_text(q, "maj") || is_text(q, "major") {
        Some(vec![(0u8, 1u8), (4u8, 3u8), (7u8, 5u8)])
    } else if is_text(q, "m") || is_text(q, "min") || is_text(q, "minor") || is_text(q, "-") {
        Some(vec![(0u8, 1u8), (3u8, 3u8), (7u8, 5u8)])
    } else if is_text(q, "dim") || is_text(q, "°") || is_text(q, "o") {
        Some(vec![(0u8, 1u8), (3u8, 3u8), (6u8, 5u8)])
    } else if is_text(q, "aug") || is_text(q, "+") {
        Some(vec![(0u8, 1u8), (4u8, 3u8), (8u8, 5u8)])
    } else if is_text(q, "sus2") {
        Some(vec![(0u8, 1u8), (2u8, 2u8), (7u8, 5u8)])
    } else if is_text(q, "sus4") || is_text(q, "sus") {
        Some(vec![(0u8, 1u8), (5u8, 4u8), (7u8, 5u8)])
    } else if is_text(q, "5") {
        Some(vec![(0u8, 1u8), (7u8, 5u8)])
    } else {
        None
    }
}

/// Seventh chords, plain and with an altered fifth:
/// the tones of quality `q`, if `q` is one of them.
pub open spec fn seventh_tones(q: Seq<char>) -> Option<Seq<(u8, u8)>> {
    if q == "7"@ {
        Some(seq![(0u8, 1u8), (4u8, 3u8), (7u8, 5u8), (10u8, 7u8)])
    } else if q == "maj7"@ || q == "M7"@ || q == "Maj7"@ {
        Some(seq![(0u8, 1u8), (4u8, 3u8), (7u8, 5u8), (11u8, 7u8)])
    } else if q == "m7"@ || q == "min7"@ {
        Some(seq![(0u8, 1u8), (3u8, 3u8), (7u8, 5u8), (10u8, 7u8)])
    } else if q == "mM7"@ || q == "mmaj7"@ || q == "mMaj7"@ {
        Some(seq![(0u8, 1u8), (3u8, 3u8), (7u8, 5u8), (11u8, 7u8)])
    } else if q == "dim7"@ || q == "°7"@ {
        Some(seq![(0u8, 1u8), (3u8, 3u8), (6u8, 5u8), (9u8, 7u8)])
    } else if q == "m7b5"@ || q == "ø"@ || q == "ø7"@ {
        Some(seq![(0u8, 1u8), (3u8, 3u8), (6u8, 5u8), (10u8, 7u8)])
    } else if q == "aug7"@ || q == "+7"@ || q == "7#5"@ {
        Some(seq![(0u8, 1u8), (4u8, 3u8), (8u8, 5u8), (10u8, 7u8)])
    } else if q == "7no5"@ {
        Some(seq![(0u8, 1u8), (4u8, 3u8), (10u8, 7u8)])
    } else if q == "7b5"@ {
        Some(seq![(0u8, 1u8), (4u8, 3u8), (6u8, 5u8), (10u8, 7u8)])
    } else if q == "maj7b5"@ {
        Some(seq![(0u8, 1u8), (4u8, 3u8), (6u8, 5u8), (11u8, 7u8)])
    } else if q == "maj7#5"@ {
        Some(seq![(0u8, 1u8), (4u8, 3u8), (8u8, 5u8), (11u8, 7u8)])
    } else {
        None
    }
}

/// Seventh chords, plain and with an altered fifth, looked up by quality.
pub fn seventh_tones_of(q: &Vec<char>) -> (r: Option<Vec<(u8, u8)>>)
    ensures
        tones_match(r, seventh_tones(q@)),
{
    if is_text(q, "7") {
        Some(vec![(0u8, 1u8), (4u8, 3u8), (7u8, 5u8), (10u8, 7u8)])
    } else if is_text(q, "maj7") || is_text(q, "M7") || is_text(q, "Maj7") {
        Some(vec![(0u8, 1u8), (4u8, 3u8), (7u8, 5u8), (11u8, 7u8)])
    } else if is_text(q, "m7") || is_text(q, "min7") {
        Some(vec![(0u8, 1u8), (3u8, 3u8), (7u8, 5u8), (10u8, 7u8)])
    } else if is_text(q, "mM7") || is_text(q, "mmaj7") || is_text(q, "mMaj7") {
        Some(vec![(0u8, 1u8), (3u8, 3u8), (7u8, 5u8), (11u8, 7u8)])
    } else if is_text(q, "dim7") || is_text(q, "°7") {
        Some(vec![(0u8, 1u8), (3u8, 3u8), (6u8, 5u8), (9u8, 7u8)])
    } else if is_text(q, "m7b5") || is_text(q, "ø") || is_text(q, "ø7") {
        Some(vec![(0u8, 1u8), (3u8, 3u8), (6u8, 5u8), (10u8, 7u8)])
    } else if is_text(q, "aug7") || is_text(q, "+7") || is_text(q, "7#5") {
        Some(vec![(0u8, 1u8), (4u8, 3u8), (8u8, 5u8), (10u8, 7u8)])
    } else if is_text(q, "7no5") {
        Some(vec![(0u8, 1u8), (4u8, 3u8), (10u8, 7u8)])
    } else if is_text(q, "7b5") {
        Some(vec![(0u8, 1u8), (4u8, 3u8), (6u8, 5u8), (10u8, 7u8)])
    } else if is_text(q, "maj7b5") {
        Some(vec![(0u8, 1u8), (4u8, 3u8), (6u8, 5u8), (11u8, 7u8)])
    } else if is_text(q, "maj7#5") {
        Some(vec![(0u8, 1u8), (4u8, 3u8), (8u8, 5u8), (11u8, 7u8)])
    } else {
        None
    }
}

/// Sevenths with an altered ninth, eleventh or thirteenth, and suspended sevenths:
/// the tones of quality `q`, if `q` is one of them.
pub open spec fn altered_tones(q: Seq<char>) -> Option<Seq<(u8, u8)>> {
    if q == "7b9"@ {
        Some(seq![(0u8, 1u8), (4u8, 3u8), (7u8, 5u8), (10u8, 7u8), (13u8, 2u8)])
    } else if q == "7#9"@ {
        Some(seq![(0u8, 1u8), (4u8, 3u8), (7u8, 5u8), (10u8, 7u8), (15u8, 2u8)])
    } else if q == "m7b9"@ {
        Some(seq![(0u8, 1u8), (3u8, 3u8), (7u8, 5u8), (10u8, 7u8), (13u8, 2u8)])
    } else if q == "7alt"@ {
        Some(seq![(0u8, 1u8), (4u8, 3u8), (6u8, 5u8), (10u8, 7u8), (13u8, 2u8)])
    } else if q == "maj7#11"@ {
        Some(seq![(0u8, 1u8), (4u8, 3u8), (7u8, 5u8), (11u8, 7u8), (18u8, 4u8)])
    } else if q == "7b13"@ {
        Some(seq![(0u8, 1u8), (4u8, 3u8), (7u8, 5u8), (10u8, 7u8), (20u8, 6u8)])
    } else if q == "7sus"@ || q == "7sus4"@ || q == "m7sus4"@ {
        Some(seq![(0u8, 1u8), (5u8, 4u8), (7u8, 5u8), (10u8, 7u8)])
    } else if q == "7sus2"@ {
        Some(seq![(0u8, 1u8), (2u8, 2u8), (7u8, 5u8), (10u8, 7u8)])
    } else if q == "9sus"@ || q == "9sus4"@ {
        Some(seq![(0u8, 1u8), (5u8, 4u8), (7u8, 5u8), (10u8, 7u8), (14u8, 2u8)])
    } else if q == "7b9sus4"@ {
        Some(seq![(0u8, 1u8), (5u8, 4u8), (7u8, 5u8), (10u8, 7u8), (13u8, 2u8)])
    } else {
        None
    }
}

/// Sevenths with an altered ninth, eleventh or thirteenth, and suspended sevenths, looked up by quality.
pub fn altered_tones_of(q: &Vec<char>) -> (r: Option<Vec<(u8, u8)>>)
    ensures
        tones_match(r, altered_tones(q@)),
{
    if is_text(q, "7b9") {
        Some(vec![(0u8, 1u8), (4u8, 3u8), (7u8, 5u8), (10u8, 7u8), (13u8, 2u8)])
    } else if is_text(q, "7#9") {
        Some(vec![(0u8, 1u8), (4u8, 3u8), (7u8, 5u8), (10u8, 7u8), (15u8, 2u8)])
    } else if is_text(q, "m7b9") {
        Some(vec![(0u8, 1u8), (3u8, 3u8), (7u8, 5u8), (10u8, 7u8), (13u8, 2u8)])
    } else if is_text(q, "7alt") {
        Some(vec![(0u8, 1u8), (4u8, 3u8), (6u8, 5u8), (10u8, 7u8), (13u8, 2u8)])
    } else if is_text(q, "maj7#11") {
        Some(vec![(0u8, 1u8), (4u8, 3u8), (7u8, 5u8), (11u8, 7u8), (18u8, 4u8)])
    } else if is_text(q, "7b13") {
        Some(vec![(0u8, 1u8), (4u8, 3u8), (7u8, 5u8), (10u8, 7u8), (20u8, 6u8)])
    } else if is_text(q, "7sus") || is_text(q, "7sus4") || is_text(q, "m7sus4") {
        Some(vec![(0u8, 1u8), (5u8, 4u8), (7u8, 5u8), (10u8, 7u8)])
    } else if is_text(q, "7sus2") {
        Some(vec![(0u8, 1u8), (2u8, 2u8), (7u8, 5u8), (10u8, 7u8)])
    } else if is_text(q, "9sus") || is_text(q, "9sus4") {
        Some(vec![(0u8, 1u8), (5u8, 4u8), (7u8, 5u8), (10u8, 7u8), (14u8, 2u8)])
    } else if is_text(q, "7b9sus4") {
        Some(vec![(0u8, 1u8), (5u8, 4u8), (7u8, 5u8), (10u8, 7u8), (13u8, 2u8)])
    } else {
        None
    }
}

/// Sixth chords:
/// the tones of quality `q`, if `q` is one of them.
pub open spec fn sixth_tones(q: Seq<char>) -> Option<Seq<(u8, u8)>> {
    if q == "6"@ || q == "add6"@ {
        Some(seq![(0u8, 1u8), (4u8, 3u8), (7u8, 5u8), (9u8, 6u8)])
    } else if q == "m6"@ || q == "min6"@ || q == "madd6"@ {
        Some(seq![(0u8, 1u8), (3u8, 3u8), (7u8, 5u8), (9u8, 6u8)])
    } else if q == "6/9"@ || q == "69"@ || q == "6add9"@ {
        Some(seq![(0u8, 1u8), (4u8, 3u8), (7u8, 5u8), (9u8, 6u8), (14u8, 2u8)])
    } else if q == "m6/9"@ || q == "m69"@ {
        Some(seq![(0u8, 1u8), (3u8, 3u8), (7u8, 5u8), (9u8, 6u8), (14u8, 2u8)])
    } else if q == "6sus2"@ {
        Some(seq![(0u8, 1u8), (2u8, 2u8), (7u8, 5u8), (9u8, 6u8)])
    } else if q == "6sus4"@ {
        Some(seq![(0u8, 1u8), (5u8, 4u8), (7u8, 5u8), (9u8, 6u8)])
    } else {
        None
    }
}

/// Sixth chords, looked up by quality.
pub fn sixth_tones_of(q: &Vec<char>) -> (r: Option<Vec<(u8, u8)>>)
    ensures
        tones_match(r, sixth_tones(q@)),
{
    if is_text(q, "6") || is_text(q, "add6") {
        Some(vec![(0u8, 1u8), (4u8, 3u8), (7u8, 5u8), (9u8, 6u8)])
    } else if is_text(q, "m6") || is_text(q, "min6") || is_text(q, "madd6") {
        Some(vec![(0u8, 1u8), (3u8, 3u8), (7u8, 5u8), (9u8, 6u8)])
    } else if is_text(q, "6/9") || is_text(q, "69") || is_text(q, "6add9") {
        Some(vec![(0u8, 1u8), (4u8, 3u8), (7u8, 5u8), (9u8, 6u8), (14u8, 2u8)])
    } else if is_text(q, "m6/9") || is_text(q, "m69") {
        Some(vec![(0u8, 1u8), (3u8, 3u8), (7u8, 5u8), (9u8, 6u8), (14u8, 2u8)])
    } else if is_text(q, "6sus2") {
        Some(vec![(0u8, 1u8), (2u8, 2u8), (7u8, 5u8), (9u8, 6u8)])
    } else if is_text(q, "6sus4") {
        Some(vec![(0u8, 1u8), (5u8, 4u8), (7u8, 5u8), (9u8, 6u8)])
    } else {
        None
    }
}

/// Triads with one added tone:
/// the tones of quality `q`, if `q` is one of them.
pub open spec fn added_tones(q: Seq<char>) -> Option<Seq<(u8, u8)>> {
    if q == "add2"@ {
        Some(seq![(0u8, 1u8), (2u8, 2u8), (4u8, 3u8), (7u8, 5u8)])
    } else if q == "add4"@ {
        Some(seq![(0u8, 1u8), (4u8, 3u8), (5u8, 4u8), (7u8, 5u8)])
    } else if q == "add9"@ {
        Some(seq![(0u8, 1u8), (4u8, 3u8), (7u8, 5u8), (14u8, 2u8)])
    } else if q == "add11"@ {
        Some(seq![(0u8, 1u8), (4u8, 3u8), (7u8, 5u8), (17u8, 4u8)])
    } else if q == "add13"@ {
        Some(seq![(0u8, 1u8), (4u8, 3u8), (7u8, 5u8), (21u8, 6u8)])
    } else if q == "madd2"@ {
        Some(seq![(0u8, 1u8), (2u8, 2u8), (3u8, 3u8), (7u8, 5u8)])
    } else if q == "madd4"@ {
        Some(seq![(0u8, 1u8), (3u8, 3u8), (5u8, 4u8), (7u8, 5u8)])
    } else if q == "madd9"@ {
        Some(seq![(0u8, 1u8), (3u8, 3u8), (7u8, 5u8), (14u8, 2u8)])
    } else if q == "madd11"@ {
        Some(seq![(0u8, 1u8), (3u8, 3u8), (7u8, 5u8), (17u8, 4u8)])
    } else {
        None
    }
}

/// Triads with one added tone, looked up by quality.
pub fn added_tones_of(q: &Vec<char>) -> (r: Option<Vec<(u8, u8)>>)
    ensures
        tones_match(r, added_tones(q@)),
{
    if is_text(q, "add2") {
        Some(vec![(0u8, 1u8), (2u8, 2u8), (4u8, 3u8), (7u8, 5u8)])
    } else if is_text(q, "add4") {
        Some(vec![(0u8, 1u8), (4u8, 3u8), (5u8, 4u8), (7u8, 5u8)])
    } else if is_text(q, "add9") {
        Some(vec![(0u8, 1u8), (4u8, 3u8), (7u8, 5u8), (14u8, 2u8)])
    } else if is_text(q, "add11") {
        Some(vec![(0u8, 1u8), (4u8, 3u8), (7u8, 5u8), (17u8, 4u8)])
    } else if is_text(q, "add13") {
        Some(vec![(0u8, 1u8), (4u8, 3u8), (7u8, 5u8), (21u8, 6u8)])
    } else if is_text(q, "madd2") {
        Some(vec![(0u8, 1u8), (2u8, 2u8), (3u8, 3u8), (7u8, 5u8)])
    } else if is_text(q, "madd4") {
        Some(vec![(0u8, 1u8), (3u8, 3u8), (5u8, 4u8), (7u8, 5u8)])
    } else if is_text(q, "madd9") {
        Some(vec![(0u8, 1u8), (3u8, 3u8), (7u8, 5u8), (14u8, 2u8)])
    } else if is_text(q, "madd11") {
        Some(vec![(0u8, 1u8), (3u8, 3u8), (7u8, 5u8), (17u8, 4u8)])
    } else {
        None
    }
}

/// Ninth, eleventh and thirteenth chords:
/// the tones of quality `q`, if `q` is one of them.
pub open spec fn extended_tones(q: Seq<char>) -> Option<Seq<(u8, u8)>> {
    if q == "9"@ {
        Some(seq![(0u8, 1u8), (4u8, 3u8), (7u8, 5u8), (10u8, 7u8), (14u8, 2u8)])
    } else if q == "maj9"@ || q == "M9"@ || q == "Maj9"@ {
        Some(seq![(0u8, 1u8), (4u8, 3u8), (7u8, 5u8), (11u8, 7u8), (14u8, 2u8)])
    } else if q == "m9"@ || q == "min9"@ {
        Some(seq![(0u8, 1u8), (3u8, 3u8), (7u8, 5u8), (10u8, 7u8), (14u8, 2u8)])
    } else if q == "9b5"@ {
        Some(seq![(0u8, 1u8), (4u8, 3u8), (6u8, 5u8), (10u8, 7u8), (14u8, 2u8)])
    } else if q == "9#5"@ {
        Some(seq![(0u8, 1u8), (4u8, 3u8), (8u8, 5u8), (10u8, 7u8), (14u8, 2u8)])
    } else if q == "m9b5"@ {
        Some(seq![(0u8, 1u8), (3u8, 3u8), (6u8, 5u8), (10u8, 7u8), (14u8, 2u8)])
    } else if q == "9#11"@ {
        Some(seq![(0u8, 1u8), (4u8, 3u8), (7u8, 5u8), (10u8, 7u8), (14u8, 2u8), (18u8, 4u8)])
    } else if q == "maj9#11"@ {
        Some(seq![(0u8, 1u8), (4u8, 3u8), (7u8, 5u8), (11u8, 7u8), (14u8, 2u8), (18u8, 4u8)])
    } else if q == "11"@ {
        Some(seq![(0u8, 1u8), (4u8, 3u8), (7u8, 5u8), (10u8, 7u8), (14u8, 2u8), (17u8, 4u8)])
    } else if q == "maj11"@ {
        Some(seq![(0u8, 1u8), (4u8, 3u8), (7u8, 5u8), (11u8, 7u8), (14u8, 2u8), (17u8, 4u8)])
    } else if q == "m11"@ || q == "min11"@ {
        Some(seq![(0u8, 1u8), (3u8, 3u8), (7u8, 5u8), (10u8, 7u8), (14u8, 2u8), (17u8, 4u8)])
    } else if q == "#11"@ {
        Some(seq![(0u8, 1u8), (4u8, 3u8), (7u8, 5u8), (10u8, 7u8), (18u8, 4u8)])
    } else if q == "13"@ {
        Some(seq![(0u8, 1u8), (4u8, 3u8), (7u8, 5u8), (10u8, 7u8), (14u8, 2u8), (21u8, 6u8)])
    } else if q == "maj13"@ {
        Some(seq![(0u8, 1u8), (4u8, 3u8), (7u8, 5u8), (11u8, 7u8), (14u8, 2u8), (21u8, 6u8)])
    } else if q == "m13"@ || q == "min13"@ {
        Some(seq![(0u8, 1u8), (3u8, 3u8), (7u8, 5u8), (10u8, 7u8), (14u8, 2u8), (21u8, 6u8)])
    } else {
        None
    }
}

/// Ninth, eleventh and thirteenth chords, looked up by quality.
pub fn extended_tones_of(q: &Vec<char>) -> (r: Option<Vec<(u8, u8)>>)
    ensures
        tones_match(r, extended_tones(q@)),
{
    if is_text(q, "9") {
        Some(vec![(0u8, 1u8), (4u8, 3u8), (7u8, 5u8), (10u8, 7u8), (14u8, 2u8)])
    } else if is_text(q, "maj9") || is_text(q, "M9") || is_text(q, "Maj9") {
        Some(vec![(0u8, 1u8), (4u8, 3u8), (7u8, 5u8), (11u8, 7u8), (14u8, 2u8)])
    } else if is_text(q, "m9") || is_text(q, "min9") {
        Some(vec![(0u8, 1u8), (3u8, 3u8), (7u8, 5u8), (10u8, 7u8), (14u8, 2u8)])
    } else if is_text(q, "9b5") {
        Some(vec![(0u8, 1u8), (4u8, 3u8), (6u8, 5u8), (10u8, 7u8), (14u8, 2u8)])
    } else if is_text(q, "9#5") {
        Some(vec![(0u8, 1u8), (4u8, 3u8), (8u8, 5u8), (10u8, 7u8), (14u8, 2u8)])
    } else if is_text(q, "m9b5") {
        Some(vec![(0u8, 1u8), (3u8, 3u8), (6u8, 5u8), (10u8, 7u8), (14u8, 2u8)])
    } else if is_text(q, "9#11") {
        Some(vec![(0u8, 1u8), (4u8, 3u8), (7u8, 5u8), (10u8, 7u8), (14u8, 2u8), (18u8, 4u8)])
    } else if is_text(q, "maj9#11") {
        Some(vec![(0u8, 1u8), (4u8, 3u8), (7u8, 5u8), (11u8, 7u8), (14u8, 2u8), (18u8, 4u8)])
    } else if is_text(q, "11") {
        Some(vec![(0u8, 1u8), (4u8, 3u8), (7u8, 5u8), (10u8, 7u8), (14u8, 2u8), (17u8, 4u8)])
    } else if is_text(q, "maj11") {
        Some(vec![(0u8, 1u8), (4u8, 3u8), (7u8, 5u8), (11u8, 7u8), (14u8, 2u8), (17u8, 4u8)])
    } else if is_text(q, "m11") || is_text(q, "min11") {
        Some(vec![(0u8, 1u8), (3u8, 3u8), (7u8, 5u8), (10u8, 7u8), (14u8, 2u8), (17u8, 4u8)])
    } else if is_text(q, "#11") {
        Some(vec![(0u8, 1u8), (4u8, 3u8), (7u8, 5u8), (10u8, 7u8), (18u8, 4u8)])
    } else if is_text(q, "13") {
        Some(vec![(0u8, 1u8), (4u8, 3u8), (7u8, 5u8), (10u8, 7u8), (14u8, 2u8), (21u8, 6u8)])
    } else if is_text(q, "maj13") {
        Some(vec![(0u8, 1u8), (4u8, 3u8), (7u8, 5u8), (11u8, 7u8), (14u8, 2u8), (21u8, 6u8)])
    } else if is_text(q, "m13") || is_text(q, "min13") {
        Some(vec![(0u8, 1u8), (3u8, 3u8), (7u8, 5u8), (10u8, 7u8), (14u8, 2u8), (21u8, 6u8)])
    } else {
        None
    }
}
/// The tones of chord quality `q`, each as (semitones above the root, scale
/// degree), or `None` when the quality is not in the table.
///
/// The scale degree tells which letter the tone is written with, whatever
/// its distance: a ninth has degree 2, an eleventh 4, a thirteenth 6.
pub open spec fn chord_tones(q: Seq<char>) -> Option<Seq<(u8, u8)>> {
    if triad_tones(q) is Some {
        triad_tones(q)
    } else if seventh_tones(q) is Some {
        seventh_tones(q)
    } else if altered_tones(q) is Some {
        altered_tones(q)
    } else if sixth_tones(q) is Some {
        sixth_tones(q)
    } else if added_tones(q) is Some {
        added_tones(q)
    } else {
        extended_tones(q)
    }
}

/// Every list of tones in the table is well formed.
pub proof fn lemma_chord_tones_well_formed(q: Seq<char>)
    ensures
        chord_tones(q) is Some ==> well_formed_tones(chord_tones(q)->0),
{
}

/// The tones of the quality named by `q`, if the table has it.
pub fn chord_tones_of(q: &Vec<char>) -> (r: Option<Vec<(u8, u8)>>)
    ensures
        tones_match(r, chord_tones(q@)),
{
    let t = triad_tones_of(q);
    if t.is_some() {
        return t;
    }
    let t = seventh_tones_of(q);
    if t.is_some() {
        return t;
    }
    let t = altered_tones_of(q);
    if t.is_some() {
        return t;
    }
    let t = sixth_tones_of(q);
    if t.is_some() {
        return t;
    }
    let t = added_tones_of(q);
    if t.is_some() {
        return t;
    }
    extended_tones_of(q)
}

/// The tones of a major triad, which stand in for any unknown quality.
pub open spec fn major_triad() -> Seq<(u8, u8)> {
    seq![(0u8, 1u8), (4u8, 3u8), (7u8, 5u8)]
}

/// The table key that a chord suffix stands for: hyphens, underscores and
/// blanks are dropped, and six long names, in any case, give their short
/// form.
pub open spec fn quality_key(suffix: Seq<char>) -> Seq<char> {
    let cleaned = without(suffix, "-_ "@);
    let lower = lowered(cleaned);
    if lower == "maj"@ || lower == "major"@ {
        "M"@
    } else if lower == "minor"@ {
        "m"@
    } else if lower == "diminished"@ {
        "dim"@
    } else if lower == "augmented"@ {
        "aug"@
    } else if lower == "suspended"@ {
        "sus4"@
    } else {
        cleaned
    }
}

/// The tones that a chord suffix stands for: those of its table key, and
/// those of the major triad when the table does not have the key.
pub open spec fn interval_specs_for(suffix: Seq<char>) -> Seq<(u8, u8)> {
    match chord_tones(quality_key(suffix)) {
        Some(t) => t,
        None => major_triad(),
    }
}

/// The tones in the table under exactly this quality, each as (semitones
/// above the root, scale degree).
pub fn chord_interval_specs(quality: &str) -> (r: Option<Vec<(u8, u8)>>)
    ensures
        tones_match(r, chord_tones(quality@)),
        r is Some ==> well_formed_tones(r->0@),
{
    proof {
        lemma_chord_tones_well_formed(quality@);
    }
    let q = chars_of(quality);
    chord_tones_of(&q)
}

/// The semitone distances of a list of tones.
pub open spec fn semitones_of(t: Seq<(u8, u8)>) -> Seq<u8> {
    Seq::new(t.len(), |i: int| t[i].0)
}

/// The semitone distances of the given tones.
pub fn tones_to_semitones(t: &Vec<(u8, u8)>) -> (r: Vec<u8>)
    ensures
        r@ == semitones_of(t@),
{
    let mut r: Vec<u8> = Vec::new();
    let mut i: usize = 0;
    while i < t.len()
        invariant
            i <= t.len(),
            r@.len() == i,
            forall|j: int| 0 <= j < i ==> r@[j] == t@[j].0,
        decreases t.len() - i,
    {
        r.push(t[i].0);
        i += 1;
    }
    assert(r@ =~= semitones_of(t@));
    r
}

/// The semitone distances in the table under exactly this quality.
pub fn chord_intervals(quality: &str) -> (r: Option<Vec<u8>>)
    ensures
        match r {
            Some(v) => chord_tones(quality@) is Some && v@ == semitones_of(chord_tones(quality@)->0),
            None => chord_tones(quality@) is None,
        },
{
    match chord_interval_specs(quality) {
        Some(t) => Some(tones_to_semitones(&t)),
        None => None,
    }
}

/// The tones of a chord suffix, each as (semitones above the root, scale
/// degree). A suffix that the table does not know gives the major triad;
/// this never fails.
pub fn parse_chord_with_interval_specs(suffix: &str) -> (r: MusicResult<Vec<(u8, u8)>>)
    ensures
        r is Ok,
        r->Ok_0@ == interval_specs_for(suffix@),
        well_formed_tones(r->Ok_0@),
{
    let s = chars_of(suffix);
    let cleaned = remove_chars(&s, "-_ ");
    let lower = to_lower(&cleaned);
    let key: Vec<char> = if is_text(&lower, "maj") || is_text(&lower, "major") {
        chars_of("M")
    } else if is_text(&lower, "minor") {
        chars_of("m")
    } else if is_text(&lower, "diminished") {
        chars_of("dim")
    } else if is_text(&lower, "augmented") {
        chars_of("aug")
    } else if is_text(&lower, "suspended") {
        chars_of("sus4")
    } else {
        cleaned
    };
    proof {
        lemma_chord_tones_well_formed(key@);
    }
    match chord_tones_of(&key) {
        Some(t) => Ok(t),
        None => Ok(vec![(0u8, 1u8), (4u8, 3u8), (7u8, 5u8)]),
    }
}

/// The semitone distances of the tones of a chord suffix; the major triad
/// for a suffix that the table does not know. This never fails.
pub fn parse_chord_with_intervals(suffix: &str) -> (r: MusicResult<Vec<u8>>)
    ensures
        r is Ok,
        r->Ok_0@ == semitones_of(interval_specs_for(suffix@)),
{
    match parse_chord_with_interval_specs(suffix) {
        Ok(t) => Ok(tones_to_semitones(&t)),
        Err(e) => Err(e),
    }
}

/// The place `0..=6` of a note letter in the cycle C D E F G A B.
pub open spec fn letter_index(c: char) -> Option<int> {
    if c == 'C' {
        Some(0)
    } else if c == 'D' {
        Some(1)
    } else if c == 'E' {
        Some(2)
    } else if c == 'F' {
        Some(3)
    } else if c == 'G' {
        Some(4)
    } else if c == 'A' {
        Some(5)
    } else if c == 'B' {
        Some(6)
    } else {
        None
    }
}

/// The note letter at place `i` of the cycle C D E F G A B.
pub open spec fn letter_at(i: int) -> char {
    if i == 0 {
        'C'
    } else if i == 1 {
        'D'
    } else if i == 2 {
        'E'
    } else if i == 3 {
        'F'
    } else if i == 4 {
        'G'
    } else if i == 5 {
        'A'
    } else {
        'B'
    }
}

/// The letter that stands `degree - 1` steps after `root_letter` in the
/// cycle of the seven note letters.
pub open spec fn letter_at_degree(root_letter: char, degree: int) -> char {
    letter_at((letter_index(root_letter)->0 + degree - 1) % 7)
}

/// The place of a note letter in the cycle C D E F G A B.
pub fn letter_to_index(c: char) -> (r: Option<u8>)
    ensures
        r is Some <==> letter_index(c) is Some,
        r is Some ==> r->0 as int == letter_index(c)->0,
{
    if c == 'C' {
        Some(0)
    } else if c == 'D' {
        Some(1)
    } else if c == 'E' {
        Some(2)
    } else if c == 'F' {
        Some(3)
    } else if c == 'G' {
        Some(4)
    } else if c == 'A' {
        Some(5)
    } else if c == 'B' {
        Some(6)
    } else {
        None
    }
}

/// The note letter at place `i` of the cycle.
pub fn index_to_letter(i: u8) -> (r: char)
    requires
        i < 7,
    ensures
        r == letter_at(i as int),
        letter_index(r) == Some(i as int),
{
    if i == 0 {
        'C'
    } else if i == 1 {
        'D'
    } else if i == 2 {
        'E'
    } else if i == 3 {
        'F'
    } else if i == 4 {
        'G'
    } else if i == 5 {
        'A'
    } else {
        'B'
    }
}

/// The letter of the note a given scale degree above a root letter: from
/// `F`, degree 1 is `F`, degree 3 is `A`, degree 7 is `E`.
pub fn get_letter_at_degree(root_letter: char, degree: u8) -> (r: char)
    requires
        letter_index(root_letter) is Some,
        degree >= 1,
    ensures
        r == letter_at_degree(root_letter, degree as int),
        letter_index(r) is Some,
{
    let root = match letter_to_index(root_letter) {
        Some(i) => i,
        None => 0,
    };
    index_to_letter(((root as u16 + degree as u16 - 1) % 7) as u8)
}

/// The scale degree that a distance in semitones is taken for when none is
/// given: a tritone counts as a fourth, eight semitones as a fifth.
pub open spec fn scale_degree_of(semitones: int) -> int {
    let n = semitones % 12;
    if n == 0 {
        1
    } else if n == 1 || n == 2 {
        2
    } else if n == 3 || n == 4 {
        3
    } else if n == 5 || n == 6 {
        4
    } else if n == 7 || n == 8 {
        5
    } else if n == 9 {
        6
    } else {
        7
    }
}

/// The scale degree, 1 to 7, that a distance in semitones is taken for.
pub fn interval_to_scale_degree(semitones: u8) -> (r: u8)
    ensures
        r == scale_degree_of(semitones as int),
        1 <= r <= 7,
{
    let n: u8 = semitones % 12;
    if n == 0 {
        1
    } else if n == 1 || n == 2 {
        2
    } else if n == 3 || n == 4 {
        3
    } else if n == 5 || n == 6 {
        4
    } else if n == 7 || n == 8 {
        5
    } else if n == 9 {
        6
    } else {
        7
    }
}

/// The accidental, `-6..=6`, that brings the natural note on `letter` to
/// pitch class `target`: the shorter way round the circle of twelve.
pub open spec fn accidental_needed(target: int, letter: char) -> int {
    let diff = (target + 12 - letter_pitch(letter)->0) % 12;
    if diff > 6 {
        diff - 12
    } else {
        diff
    }
}

/// What [`spell_interval_with_degree`] returns.
///
/// The root must not be empty and must name a note. The tone is written
/// with the letter `degree - 1` steps after the root's letter, and with the
/// accidental that brings this letter to the pitch class `semitones` above
/// the root: none, one or two sharps, one or two flats. A tone that would
/// need more is an error that names the accidental.
pub open spec fn spell_interval_spec(root: Seq<char>, semitones: int, degree: int) -> Result<
    Seq<char>,
    Failure,
> {
    if root.len() == 0 {
        Err(Failure::ParseError("Empty root"@))
    } else {
        match pitch_class(root) {
            None => Err(Failure::InvalidKey(root)),
            Some(root_pitch) => {
                let letter = letter_at_degree(root[0], degree);
                let accidental = accidental_needed((root_pitch + semitones) % 12, letter);
                if accidental == 0 {
                    Ok(seq![letter])
                } else if accidental == 1 {
                    Ok(seq![letter, '#'])
                } else if accidental == -1 {
                    Ok(seq![letter, 'b'])
                } else if accidental == 2 {
                    Ok(seq![letter, '#', '#'])
                } else if accidental == -2 {
                    Ok(seq![letter, 'b', 'b'])
                } else {
                    Err(
                        Failure::ParseError(
                            "Invalid accidental adjustment: "@ + signed_decimal(accidental),
                        ),
                    )
                }
            },
        }
    }
}

/// Spells the tone that lies `interval_semitones` above `root` with the
/// letter of the given scale degree: a minor third above `F` is `Ab`, a
/// diminished seventh above `C` is `Bbb`.
pub fn spell_interval_with_degree(root: &str, interval_semitones: u8, scale_degree: u8) -> (r:
    MusicResult<String>)
    requires
        scale_degree >= 1,
    ensures
        outcome(r) == spell_interval_spec(
            root@,
            interval_semitones as int,
            scale_degree as int,
        ),
{
    let v = chars_of(root);
    if v.len() == 0 {
        return Err(MusicError::ParseError(String::from_str("Empty root")));
    }
    let root_pitch = match pitch_class_of(&v) {
        Some(p) => p,
        None => { return Err(MusicError::InvalidKey(String::from_str(root))); },
    };
    let letter = get_letter_at_degree(v[0], scale_degree);
    let natural: u16 = natural_pitch_of(letter) as u16;
    let target: u16 = (root_pitch as u16 + interval_semitones as u16) % 12;
    let diff: u16 = (target + 12 - natural) % 12;
    let mut out: Vec<char> = Vec::new();
    out.push(letter);
    if diff == 0 {
    } else if diff == 1 {
        out.push('#');
    } else if diff == 11 {
        out.push('b');
    } else if diff == 2 {
        out.push('#');
        out.push('#');
    } else if diff == 10 {
        out.push('b');
        out.push('b');
    } else {
        let accidental: i8 = if diff > 6 {
            (diff as i8) - 12
        } else {
            diff as i8
        };
        let mut msg = chars_of("Invalid accidental adjustment: ");
        push_signed_decimal(&mut msg, accidental);
        return Err(MusicError::ParseError(string_of(&msg)));
    }
    let s = string_of(&out);
    assert(outcome(Ok::<String, MusicError>(s)) == spell_interval_spec(
        root@,
        interval_semitones as int,
        scale_degree as int,
    )) by {
        let letter_seq = seq![letter];
        assert(out@ =~= seq![letter] || out@ =~= seq![letter, '#'] || out@ =~= seq![letter, 'b']
            || out@ =~= seq![letter, '#', '#'] || out@ =~= seq![letter, 'b', 'b']);
    }
    Ok(s)
}

/// The pitch class of the natural note on a letter of the cycle.
pub fn natural_pitch_of(letter: char) -> (r: u8)
    requires
        letter_index(letter) is Some,
    ensures
        letter_pitch(letter) == Some(r as int),
        r < 12,
{
    if letter == 'C' {
        0
    } else if letter == 'D' {
        2
    } else if letter == 'E' {
        4
    } else if letter == 'F' {
        5
    } else if letter == 'G' {
        7
    } else if letter == 'A' {
        9
    } else {
        11
    }
}

/// What [`spell_interval_diatonically`] returns: the tone spelled with the
/// scale degree that its distance is taken for.
pub open spec fn spell_diatonic_spec(root: Seq<char>, semitones: int) -> Result<Seq<char>, Failure> {
    spell_interval_spec(root, semitones, scale_degree_of(semitones))
}

/// Spells the tone `interval_semitones` above `root`, taking the scale
/// degree from the distance alone.
pub fn spell_interval_diatonically(root: &str, interval_semitones: u8) -> (r: MusicResult<String>)
    ensures
        outcome(r) == spell_diatonic_spec(root@, interval_semitones as int),
{
    let degree = interval_to_scale_degree(interval_semitones);
    spell_interval_with_degree(root, interval_semitones, degree)
}

/// Each tone of `specs` spelled above `root`.
pub open spec fn spelled_tones(root: Seq<char>, specs: Seq<(u8, u8)>) -> Seq<
    Result<Seq<char>, Failure>,
> {
    Seq::new(specs.len(), |i: int| spell_interval_spec(root, specs[i].0 as int, specs[i].1 as int))
}

/// What [`interval_specs_to_notes`] returns: every tone spelled, in order,
/// or the error of the first tone that cannot be spelled.
pub open spec fn interval_specs_to_notes_spec(root: Seq<char>, specs: Seq<(u8, u8)>) -> Result<
    Seq<Seq<char>>,
    Failure,
> {
    all_or_first_error(spelled_tones(root, specs))
}

/// The note names of the given tones above `root`, each spelled with the
/// letter of its scale degree.
pub fn interval_specs_to_notes(root: &str, specs: &[(u8, u8)]) -> (r: MusicResult<Vec<String>>)
    requires
        forall|i: int| 0 <= i < specs@.len() ==> (#[trigger] specs@[i]).1 >= 1,
    ensures
        outcome(r) == interval_specs_to_notes_spec(root@, specs@),
{
    let ghost items = spelled_tones(root@, specs@);
    let mut out: Vec<String> = Vec::new();
    assert(out.deep_view() =~= Seq::<Seq<char>>::empty());
    let mut i: usize = 0;
    while i < specs.len()
        invariant
            i <= specs.len(),
            items == spelled_tones(root@, specs@),
            forall|i: int| 0 <= i < specs@.len() ==> (#[trigger] specs@[i]).1 >= 1,
            collected(items, i as int) == Ok::<Seq<Seq<char>>, Failure>(out.deep_view()),
        decreases specs.len() - i,
    {
        match spell_interval_with_degree(root, specs[i].0, specs[i].1) {
            Ok(note) => {
                push_text(&mut out, note);
            },
            Err(e) => {
                proof {
                    lemma_collected_error(items, i + 1, specs.len() as int);
                }
                return Err(e);
            },
        }
        i += 1;
    }
    Ok(out)
}

/// Each distance of `intervals` spelled above `root` by its distance alone.
pub open spec fn spelled_intervals(root: Seq<char>, intervals: Seq<u8>) -> Seq<
    Result<Seq<char>, Failure>,
> {
    Seq::new(intervals.len(), |i: int| spell_diatonic_spec(root, intervals[i] as int))
}

/// What [`intervals_to_notes`] returns.
pub open spec fn intervals_to_notes_spec(root: Seq<char>, intervals: Seq<u8>) -> Result<
    Seq<Seq<char>>,
    Failure,
> {
    all_or_first_error(spelled_intervals(root, intervals))
}

/// The note names of the given distances above `root`, the scale degree of
/// each taken from the distance alone.
pub fn intervals_to_notes(root: &str, intervals: &[u8]) -> (r: MusicResult<Vec<String>>)
    ensures
        outcome(r) == intervals_to_notes_spec(root@, intervals@),
{
    let ghost items = spelled_intervals(root@, intervals@);
    let mut out: Vec<String> = Vec::new();
    assert(out.deep_view() =~= Seq::<Seq<char>>::empty());
    let mut i: usize = 0;
    while i < intervals.len()
        invariant
            i <= intervals.len(),
            items == spelled_intervals(root@, intervals@),
            collected(items, i as int) == Ok::<Seq<Seq<char>>, Failure>(out.deep_view()),
        decreases intervals.len() - i,
    {
        match spell_interval_diatonically(root, intervals[i]) {
            Ok(note) => {
                push_text(&mut out, note);
            },
            Err(e) => {
                proof {
                    lemma_collected_error(items, i + 1, intervals.len() as int);
                }
                return Err(e);
            },
        }
        i += 1;
    }
    Ok(out)
}

/// What [`chord_to_notes`] returns.
///
/// The chord must parse and have a root. Its notes are the tones of its
/// suffix (those of the major triad when the suffix is unknown), spelled
/// above the root. The bass of a slash chord is put in front as it is
/// written, also when it is one of the chord's notes.
pub open spec fn chord_to_notes_spec(chord: Seq<char>) -> Result<Seq<Seq<char>>, Failure> {
    match parse_chord_spec(chord) {
        Err(e) => Err(e),
        Ok(parsed) => if parsed.root.len() == 0 {
            Err(Failure::ParseError("Empty chord"@))
        } else {
            match interval_specs_to_notes_spec(parsed.root, interval_specs_for(parsed.suffix)) {
                Err(e) => Err(e),
                Ok(notes) => match parsed.bass {
                    Some(bass) => Ok(seq![bass] + notes),
                    None => Ok(notes),
                },
            }
        },
    }
}

/// The note names of a chord, correctly spelled: `"Fm7"` gives F, Ab, C, Eb
/// and `"C/E"` gives E, C, E, G.
pub fn chord_to_notes(chord: &str) -> (r: MusicResult<Vec<String>>)
    ensures
        outcome(r) == chord_to_notes_spec(chord@),
{
    let parsed = parse_chord(chord)?;
    if parsed.root.as_str().unicode_len() == 0 {
        return Err(MusicError::ParseError(String::from_str("Empty chord")));
    }
    let specs = match parse_chord_with_interval_specs(parsed.suffix.as_str()) {
        Ok(t) => t,
        Err(e) => { return Err(e); },
    };
    let notes = interval_specs_to_notes(parsed.root.as_str(), specs.as_slice())?;
    match parsed.bass {
        None => Ok(notes),
        Some(bass) => {
            let mut out: Vec<String> = Vec::new();
            assert(out.deep_view() =~= Seq::<Seq<char>>::empty());
            push_text(&mut out, bass);
            let mut i: usize = 0;
            while i < notes.len()
                invariant
                    i <= notes.len(),
                    out.deep_view() == seq![bass@] + notes.deep_view().take(i as int),
                decreases notes.len() - i,
            {
                let ghost before = out.deep_view();
                push_text(&mut out, notes[i].clone());
                i += 1;
                assert(out.deep_view() =~= seq![bass@] + notes.deep_view().take(i as int));
            }
            assert(notes.deep_view().take(notes.len() as int) =~= notes.deep_view());
            Ok(out)
        },
    }
}

/// Whether `q` is one of the given names.
pub open spec fn names(list: Seq<&'static str>, q: Seq<char>) -> bool {
    exists|i: int| 0 <= i < list.len() && (#[trigger] list[i])@ == q
}

/// The qualities of this family, in the order of the table.
pub fn triad_qualities() -> (r: Vec<&'static str>)
    ensures
        forall|q: Seq<char>| #![trigger names(r@, q)] triad_tones(q) is Some <==> names(r@, q),
{
    let r: Vec<&'static str> = vec![
        "",
        "M",
        "maj",
        "major",
        "m",
        "min",
        "minor",
        "-",
        "dim",
        "°",
        "o",
        "aug",
        "+",
        "sus2",
        "sus4",
        "sus",
        "5",
    ];
    assert forall|q: Seq<char>| triad_tones(q) is Some <==> names(r@, q) by {
        if triad_tones(q) is Some {
            if q == ""@ {
                assert(r@[0]@ == q);
            }
            if q == "M"@ {
                assert(r@[1]@ == q);
            }
            if q == "maj"@ {
                assert(r@[2]@ == q);
            }
            if q == "major"@ {
                assert(r@[3]@ == q);
            }
            if q == "m"@ {
                assert(r@[4]@ == q);
            }
            if q == "min"@ {
                assert(r@[5]@ == q);
            }
            if q == "minor"@ {
                assert(r@[6]@ == q);
            }
            if q == "-"@ {
                assert(r@[7]@ == q);
            }
            if q == "dim"@ {
                assert(r@[8]@ == q);
            }
            if q == "°"@ {
                assert(r@[9]@ == q);
            }
            if q == "o"@ {
                assert(r@[10]@ == q);
            }
            if q == "aug"@ {
                assert(r@[11]@ == q);
            }
            if q == "+"@ {
                assert(r@[12]@ == q);
            }
            if q == "sus2"@ {
                assert(r@[13]@ == q);
            }
            if q == "sus4"@ {
                assert(r@[14]@ == q);
            }
            if q == "sus"@ {
                assert(r@[15]@ == q);
            }
            if q == "5"@ {
                assert(r@[16]@ == q);
            }
        }
        if names(r@, q) {
            let i = choose|i: int| 0 <= i < r@.len() && (#[trigger] r@[i])@ == q;
            if i == 0 {
                assert(q == ""@);
            }
            if i == 1 {
                assert(q == "M"@);
            }
            if i == 2 {
                assert(q == "maj"@);
            }
            if i == 3 {
                assert(q == "major"@);
            }
            if i == 4 {
                assert(q == "m"@);
            }
            if i == 5 {
                assert(q == "min"@);
            }
            if i == 6 {
                assert(q == "minor"@);
            }
            if i == 7 {
                assert(q == "-"@);
            }
            if i == 8 {
                assert(q == "dim"@);
            }
            if i == 9 {
                assert(q == "°"@);
            }
            if i == 10 {
                assert(q == "o"@);
            }
            if i == 11 {
                assert(q == "aug"@);
            }
            if i == 12 {
                assert(q == "+"@);
            }
            if i == 13 {
                assert(q == "sus2"@);
            }
            if i == 14 {
                assert(q == "sus4"@);
            }
            if i == 15 {
                assert(q == "sus"@);
            }
            if i == 16 {
                assert(q == "5"@);
            }
        }
    }
    r
}

/// The qualities of this family, in the order of the table.
pub fn seventh_qualities() -> (r: Vec<&'static str>)
    ensures
        forall|q: Seq<char>| #![trigger names(r@, q)] seventh_tones(q) is Some <==> names(r@, q),
{
    let r: Vec<&'static str> = vec![
        "7",
        "maj7",
        "M7",
        "Maj7",
        "m7",
        "min7",
        "mM7",
        "mmaj7",
        "mMaj7",
        "dim7",
        "°7",
        "m7b5",
        "ø",
        "ø7",
        "aug7",
        "+7",
        "7#5",
        "7no5",
        "7b5",
        "maj7b5",
        "maj7#5",
    ];
    assert forall|q: Seq<char>| seventh_tones(q) is Some <==> names(r@, q) by {
        if seventh_tones(q) is Some {
            if q == "7"@ {
                assert(r@[0]@ == q);
            }
            if q == "maj7"@ {
                assert(r@[1]@ == q);
            }
            if q == "M7"@ {
                assert(r@[2]@ == q);
            }
            if q == "Maj7"@ {
                assert(r@[3]@ == q);
            }
            if q == "m7"@ {
                assert(r@[4]@ == q);
            }
            if q == "min7"@ {
                assert(r@[5]@ == q);
            }
            if q == "mM7"@ {
                assert(r@[6]@ == q);
            }
            if q == "mmaj7"@ {
                assert(r@[7]@ == q);
            }
            if q == "mMaj7"@ {
                assert(r@[8]@ == q);
            }
            if q == "dim7"@ {
                assert(r@[9]@ == q);
            }
            if q == "°7"@ {
                assert(r@[10]@ == q);
            }
            if q == "m7b5"@ {
                assert(r@[11]@ == q);
            }
            if q == "ø"@ {
                assert(r@[12]@ == q);
            }
            if q == "ø7"@ {
                assert(r@[13]@ == q);
            }
            if q == "aug7"@ {
                assert(r@[14]@ == q);
            }
            if q == "+7"@ {
                assert(r@[15]@ == q);
            }
            if q == "7#5"@ {
                assert(r@[16]@ == q);
            }
            if q == "7no5"@ {
                assert(r@[17]@ == q);
            }
            if q == "7b5"@ {
                assert(r@[18]@ == q);
            }
            if q == "maj7b5"@ {
                assert(r@[19]@ == q);
            }
            if q == "maj7#5"@ {
                assert(r@[20]@ == q);
            }
        }
        if names(r@, q) {
            let i = choose|i: int| 0 <= i < r@.len() && (#[trigger] r@[i])@ == q;
            if i == 0 {
                assert(q == "7"@);
            }
            if i == 1 {
                assert(q == "maj7"@);
            }
            if i == 2 {
                assert(q == "M7"@);
            }
            if i == 3 {
                assert(q == "Maj7"@);
            }
            if i == 4 {
                assert(q == "m7"@);
            }
            if i == 5 {
                assert(q == "min7"@);
            }
            if i == 6 {
                assert(q == "mM7"@);
            }
            if i == 7 {
                assert(q == "mmaj7"@);
            }
            if i == 8 {
                assert(q == "mMaj7"@);
            }
            if i == 9 {
                assert(q == "dim7"@);
            }
            if i == 10 {
                assert(q == "°7"@);
            }
            if i == 11 {
                assert(q == "m7b5"@);
            }
            if i == 12 {
                assert(q == "ø"@);
            }
            if i == 13 {
                assert(q == "ø7"@);
            }
            if i == 14 {
                assert(q == "aug7"@);
            }
            if i == 15 {
                assert(q == "+7"@);
            }
            if i == 16 {
                assert(q == "7#5"@);
            }
            if i == 17 {
                assert(q == "7no5"@);
            }
            if i == 18 {
                assert(q == "7b5"@);
            }
            if i == 19 {
                assert(q == "maj7b5"@);
            }
            if i == 20 {
                assert(q == "maj7#5"@);
            }
        }
    }
    r
}

/// The qualities of this family, in the order of the table.
pub fn altered_qualities() -> (r: Vec<&'static str>)
    ensures
        forall|q: Seq<char>| #![trigger names(r@, q)] altered_tones(q) is Some <==> names(r@, q),
{
    let r: Vec<&'static str> = vec![
        "7b9",
        "7#9",
        "m7b9",
        "7alt",
        "maj7#11",
        "7b13",
        "7sus",
        "7sus4",
        "m7sus4",
        "7sus2",
        "9sus",
        "9sus4",
        "7b9sus4",
    ];
    assert forall|q: Seq<char>| altered_tones(q) is Some <==> names(r@, q) by {
        if altered_tones(q) is Some {
            if q == "7b9"@ {
                assert(r@[0]@ == q);
            }
            if q == "7#9"@ {
                assert(r@[1]@ == q);
            }
            if q == "m7b9"@ {
                assert(r@[2]@ == q);
            }
            if q == "7alt"@ {
                assert(r@[3]@ == q);
            }
            if q == "maj7#11"@ {
                assert(r@[4]@ == q);
            }
            if q == "7b13"@ {
                assert(r@[5]@ == q);
            }
            if q == "7sus"@ {
                assert(r@[6]@ == q);
            }
            if q == "7sus4"@ {
                assert(r@[7]@ == q);
            }
            if q == "m7sus4"@ {
                assert(r@[8]@ == q);
            }
            if q == "7sus2"@ {
                assert(r@[9]@ == q);
            }
            if q == "9sus"@ {
                assert(r@[10]@ == q);
            }
            if q == "9sus4"@ {
                assert(r@[11]@ == q);
            }
            if q == "7b9sus4"@ {
                assert(r@[12]@ == q);
            }
        }
        if names(r@, q) {
            let i = choose|i: int| 0 <= i < r@.len() && (#[trigger] r@[i])@ == q;
            if i == 0 {
                assert(q == "7b9"@);
            }
            if i == 1 {
                assert(q == "7#9"@);
            }
            if i == 2 {
                assert(q == "m7b9"@);
            }
            if i == 3 {
                assert(q == "7alt"@);
            }
            if i == 4 {
                assert(q == "maj7#11"@);
            }
            if i == 5 {
                assert(q == "7b13"@);
            }
            if i == 6 {
                assert(q == "7sus"@);
            }
            if i == 7 {
                assert(q == "7sus4"@);
            }
            if i == 8 {
                assert(q == "m7sus4"@);
            }
            if i == 9 {
                assert(q == "7sus2"@);
            }
            if i == 10 {
                assert(q == "9sus"@);
            }
            if i == 11 {
                assert(q == "9sus4"@);
            }
            if i == 12 {
                assert(q == "7b9sus4"@);
            }
        }
    }
    r
}

/// The qualities of this family, in the order of the table.
pub fn sixth_qualities() -> (r: Vec<&'static str>)
    ensures
        forall|q: Seq<char>| #![trigger names(r@, q)] sixth_tones(q) is Some <==> names(r@, q),
{
    let r: Vec<&'static str> = vec![
        "6",
        "add6",
        "m6",
        "min6",
        "madd6",
        "6/9",
        "69",
        "6add9",
        "m6/9",
        "m69",
        "6sus2",
        "6sus4",
    ];
    assert forall|q: Seq<char>| sixth_tones(q) is Some <==> names(r@, q) by {
        if sixth_tones(q) is Some {
            if q == "6"@ {
                assert(r@[0]@ == q);
            }
            if q == "add6"@ {
                assert(r@[1]@ == q);
            }
            if q == "m6"@ {
                assert(r@[2]@ == q);
            }
            if q == "min6"@ {
                assert(r@[3]@ == q);
            }
            if q == "madd6"@ {
                assert(r@[4]@ == q);
            }
            if q == "6/9"@ {
                assert(r@[5]@ == q);
            }
            if q == "69"@ {
                assert(r@[6]@ == q);
            }
            if q == "6add9"@ {
                assert(r@[7]@ == q);
            }
            if q == "m6/9"@ {
                assert(r@[8]@ == q);
            }
            if q == "m69"@ {
                assert(r@[9]@ == q);
            }
            if q == "6sus2"@ {
                assert(r@[10]@ == q);
            }
            if q == "6sus4"@ {
                assert(r@[11]@ == q);
            }
        }
        if names(r@, q) {
            let i = choose|i: int| 0 <= i < r@.len() && (#[trigger] r@[i])@ == q;
            if i == 0 {
                assert(q == "6"@);
            }
            if i == 1 {
                assert(q == "add6"@);
            }
            if i == 2 {
                assert(q == "m6"@);
            }
            if i == 3 {
                assert(q == "min6"@);
            }
            if i == 4 {
                assert(q == "madd6"@);
            }
            if i == 5 {
                assert(q == "6/9"@);
            }
            if i == 6 {
                assert(q == "69"@);
            }
            if i == 7 {
                assert(q == "6add9"@);
            }
            if i == 8 {
                assert(q == "m6/9"@);
            }
            if i == 9 {
                assert(q == "m69"@);
            }
            if i == 10 {
                assert(q == "6sus2"@);
            }
            if i == 11 {
                assert(q == "6sus4"@);
            }
        }
    }
    r
}

/// The qualities of this family, in the order of the table.
pub fn added_qualities() -> (r: Vec<&'static str>)
    ensures
        forall|q: Seq<char>| #![trigger names(r@, q)] added_tones(q) is Some <==> names(r@, q),
{
    let r: Vec<&'static str> = vec![
        "add2",
        "add4",
        "add9",
        "add11",
        "add13",
        "madd2",
        "madd4",
        "madd9",
        "madd11",
    ];
    assert forall|q: Seq<char>| added_tones(q) is Some <==> names(r@, q) by {
        if added_tones(q) is Some {
            if q == "add2"@ {
                assert(r@[0]@ == q);
            }
            if q == "add4"@ {
                assert(r@[1]@ == q);
            }
            if q == "add9"@ {
                assert(r@[2]@ == q);
            }
            if q == "add11"@ {
                assert(r@[3]@ == q);
            }
            if q == "add13"@ {
                assert(r@[4]@ == q);
            }
            if q == "madd2"@ {
                assert(r@[5]@ == q);
            }
            if q == "madd4"@ {
                assert(r@[6]@ == q);
            }
            if q == "madd9"@ {
                assert(r@[7]@ == q);
            }
            if q == "madd11"@ {
                assert(r@[8]@ == q);
            }
        }
        if names(r@, q) {
            let i = choose|i: int| 0 <= i < r@.len() && (#[trigger] r@[i])@ == q;
            if i == 0 {
                assert(q == "add2"@);
            }
            if i == 1 {
                assert(q == "add4"@);
            }
            if i == 2 {
                assert(q == "add9"@);
            }
            if i == 3 {
                assert(q == "add11"@);
            }
            if i == 4 {
                assert(q == "add13"@);
            }
            if i == 5 {
                assert(q == "madd2"@);
            }
            if i == 6 {
                assert(q == "madd4"@);
            }
            if i == 7 {
                assert(q == "madd9"@);
            }
            if i == 8 {
                assert(q == "madd11"@);
            }
        }
    }
    r
}

/// The qualities of this family, in the order of the table.
pub fn extended_qualities() -> (r: Vec<&'static str>)
    ensures
        forall|q: Seq<char>| #![trigger names(r@, q)] extended_tones(q) is Some <==> names(r@, q),
{
    let r: Vec<&'static str> = vec![
        "9",
        "maj9",
        "M9",
        "Maj9",
        "m9",
        "min9",
        "9b5",
        "9#5",
        "m9b5",
        "9#11",
        "maj9#11",
        "11",
        "maj11",
        "m11",
        "min11",
        "#11",
        "13",
        "maj13",
        "m13",
        "min13",
    ];
    assert forall|q: Seq<char>| extended_tones(q) is Some <==> names(r@, q) by {
        if extended_tones(q) is Some {
            if q == "9"@ {
                assert(r@[0]@ == q);
            }
            if q == "maj9"@ {
                assert(r@[1]@ == q);
            }
            if q == "M9"@ {
                assert(r@[2]@ == q);
            }
            if q == "Maj9"@ {
                assert(r@[3]@ == q);
            }
            if q == "m9"@ {
                assert(r@[4]@ == q);
            }
            if q == "min9"@ {
                assert(r@[5]@ == q);
            }
            if q == "9b5"@ {
                assert(r@[6]@ == q);
            }
            if q == "9#5"@ {
                assert(r@[7]@ == q);
            }
            if q == "m9b5"@ {
                assert(r@[8]@ == q);
            }
            if q == "9#11"@ {
                assert(r@[9]@ == q);
            }
            if q == "maj9#11"@ {
                assert(r@[10]@ == q);
            }
            if q == "11"@ {
                assert(r@[11]@ == q);
            }
            if q == "maj11"@ {
                assert(r@[12]@ == q);
            }
            if q == "m11"@ {
                assert(r@[13]@ == q);
            }
            if q == "min11"@ {
                assert(r@[14]@ == q);
            }
            if q == "#11"@ {
                assert(r@[15]@ == q);
            }
            if q == "13"@ {
                assert(r@[16]@ == q);
            }
            if q == "maj13"@ {
                assert(r@[17]@ == q);
            }
            if q == "m13"@ {
                assert(r@[18]@ == q);
            }
            if q == "min13"@ {
                assert(r@[19]@ == q);
            }
        }
        if names(r@, q) {
            let i = choose|i: int| 0 <= i < r@.len() && (#[trigger] r@[i])@ == q;
            if i == 0 {
                assert(q == "9"@);
            }
            if i == 1 {
                assert(q == "maj9"@);
            }
            if i == 2 {
                assert(q == "M9"@);
            }
            if i == 3 {
                assert(q == "Maj9"@);
            }
            if i == 4 {
                assert(q == "m9"@);
            }
            if i == 5 {
                assert(q == "min9"@);
            }
            if i == 6 {
                assert(q == "9b5"@);
            }
            if i == 7 {
                assert(q == "9#5"@);
            }
            if i == 8 {
                assert(q == "m9b5"@);
            }
            if i == 9 {
                assert(q == "9#11"@);
            }
            if i == 10 {
                assert(q == "maj9#11"@);
            }
            if i == 11 {
                assert(q == "11"@);
            }
            if i == 12 {
                assert(q == "maj11"@);
            }
            if i == 13 {
                assert(q == "m11"@);
            }
            if i == 14 {
                assert(q == "min11"@);
            }
            if i == 15 {
                assert(q == "#11"@);
            }
            if i == 16 {
                assert(q == "13"@);
            }
            if i == 17 {
                assert(q == "maj13"@);
            }
            if i == 18 {
                assert(q == "m13"@);
            }
            if i == 19 {
                assert(q == "min13"@);
            }
        }
    }
    r
}

/// Whether `q` is one of the given texts.
pub open spec fn holds(list: Seq<String>, q: Seq<char>) -> bool {
    exists|i: int| 0 <= i < list.len() && (#[trigger] list[i])@ == q
}

/// Appends the given names to a list of texts.
pub fn append_names(out: &mut Vec<String>, list: &Vec<&'static str>)
    ensures
        forall|q: Seq<char>|
            #![trigger holds(final(out)@, q)]
            holds(final(out)@, q) <==> holds(old(out)@, q) || names(list@, q),
{
    let mut i: usize = 0;
    while i < list.len()
        invariant
            i <= list.len(),
            out@.len() == old(out)@.len() + i,
            forall|k: int| 0 <= k < old(out)@.len() ==> out@[k] == old(out)@[k],
            forall|k: int| 0 <= k < i ==> (#[trigger] out@[old(out)@.len() + k])@ == list@[k]@,
        decreases list.len() - i,
    {
        out.push(String::from_str(list[i]));
        i += 1;
    }
    assert forall|q: Seq<char>| holds(out@, q) <==> holds(old(out)@, q) || names(list@, q) by {
        if holds(out@, q) {
            let k = choose|k: int| 0 <= k < out@.len() && (#[trigger] out@[k])@ == q;
            if k < old(out)@.len() {
                assert(old(out)@[k]@ == q);
            } else {
                assert(out@[old(out)@.len() + (k - old(out)@.len())]@ == q);
                assert(list@[k - old(out)@.len()]@ == q);
            }
        }
        if holds(old(out)@, q) {
            let k = choose|k: int| 0 <= k < old(out)@.len() && (#[trigger] old(out)@[k])@ == q;
            assert(out@[k]@ == q);
        }
        if names(list@, q) {
            let k = choose|k: int| 0 <= k < list@.len() && (#[trigger] list@[k])@ == q;
            assert(out@[old(out)@.len() + k]@ == q);
        }
    }
}

/// Every quality that the table of chord tones knows, family by family.
pub fn get_chord_qualities() -> (r: Vec<String>)
    ensures
        forall|q: Seq<char>| chord_tones(q) is Some <==> holds(r@, q),
{
    let mut r: Vec<String> = Vec::new();
    let ghost r0 = r@;
    let triads = triad_qualities();
    append_names(&mut r, &triads);
    let ghost r1 = r@;
    let sevenths = seventh_qualities();
    append_names(&mut r, &sevenths);
    let ghost r2 = r@;
    let altered = altered_qualities();
    append_names(&mut r, &altered);
    let ghost r3 = r@;
    let sixths = sixth_qualities();
    append_names(&mut r, &sixths);
    let ghost r4 = r@;
    let added = added_qualities();
    append_names(&mut r, &added);
    let ghost r5 = r@;
    let extended = extended_qualities();
    append_names(&mut r, &extended);
    assert forall|q: Seq<char>| chord_tones(q) is Some <==> holds(r@, q) by {
        assert(!holds(r0, q));
        assert(holds(r1, q) <==> triad_tones(q) is Some);
        assert(holds(r2, q) <==> holds(r1, q) || seventh_tones(q) is Some);
        assert(holds(r3, q) <==> holds(r2, q) || altered_tones(q) is Some);
        assert(holds(r4, q) <==> holds(r3, q) || sixth_tones(q) is Some);
        assert(holds(r5, q) <==> holds(r4, q) || added_tones(q) is Some);
        assert(holds(r@, q) <==> holds(r5, q) || extended_tones(q) is Some);
    }
    r
}

} // verus!
