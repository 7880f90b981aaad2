//! Roman numerals: reading a numeral, turning a numeral into a chord of a
//! key, and naming a chord of a key by its numeral.
//!
//! There are two ways to name a chord. The display numeral keeps the chord's
//! spelling apart: in C, F#m is `#iv` and Gbm is `bv`. The lookup numeral
//! goes by pitch alone, so that both are `#iv`.

use crate::chords::{
    parse_chord, parse_chord_spec, semitones_up, transpose_chord, transpose_chord_spec,
};
use crate::intervals::{letter_index, letter_to_index};
use crate::notes::{
    note_index, note_index_spec, pitch_class, preferred_name_in, preferred_note_name,
};
use crate::text::{
    append, begins_with, chars_of, concat, contains_text, decimal, find_char, has_text, is_text,
    lowered, push_decimal, push_text, remove_chars, replace_all, replace_prefix, replaced, slice,
    split_at_slash, split_slash, starts_with, string_of, to_lower, trim, trimmed,
    with_prefix_replaced, without,
};
use crate::types::{
    all_or_first_error, collected, lemma_collected_error, outcome, Accidental, Failure,
    MusicError, MusicResult, RomanNumeralModel, RomanNumeralParts,
};
use vstd::prelude::*;
use vstd::string::*;

verus! {

/// Whether `s` has the character `c` at index `i`.
pub open spec fn has_at(s: Seq<char>, i: int, c: char) -> bool {
    0 <= i < s.len() && s[i] == c
}

/// The accidental in front of a numeral, and the text after it. A `b`
/// counts only when one of `I`, `V`, `i`, `v` follows it; a `#` always.
pub open spec fn numeral_accidental(main: Seq<char>) -> (Option<Accidental>, Seq<char>) {
    if has_at(main, 0, 'b') && (has_at(main, 1, 'I') || has_at(main, 1, 'V') || has_at(main, 1, 'i')
        || has_at(main, 1, 'v')) {
        (Some(Accidental::Flat), main.skip(1))
    } else if has_at(main, 0, '#') {
        (Some(Accidental::Sharp), main.skip(1))
    } else {
        (None, main)
    }
}

/// The longest numeral that `s` begins with, written with the character
/// `one` for I and `five` for V: its degree and its length.
pub open spec fn numeral_in_case(s: Seq<char>, one: char, five: char) -> Option<(int, int)> {
    if has_at(s, 0, five) {
        if has_at(s, 1, one) {
            if has_at(s, 2, one) {
                Some((7, 3))
            } else {
                Some((6, 2))
            }
        } else {
            Some((5, 1))
        }
    } else if has_at(s, 0, one) {
        if has_at(s, 1, five) {
            Some((4, 2))
        } else if has_at(s, 1, one) {
            if has_at(s, 2, one) {
                Some((3, 3))
            } else {
                Some((2, 2))
            }
        } else {
            Some((1, 1))
        }
    } else {
        None
    }
}

/// The longest of the numerals `I` to `VII` and `i` to `vii` that `s` begins
/// with: its degree, whether it is in lower case, and its length.
pub open spec fn roman_token(s: Seq<char>) -> Option<(int, bool, int)> {
    match numeral_in_case(s, 'I', 'V') {
        Some((degree, len)) => Some((degree, false, len)),
        None => match numeral_in_case(s, 'i', 'v') {
            Some((degree, len)) => Some((degree, true, len)),
            None => None,
        },
    }
}

/// The quality suffix of a numeral in the library's own notation: a leading
/// `ø7` or `ø` becomes `m7b5`, a leading `+` becomes `aug`; then every `maj`
/// becomes `M` and every `dim` becomes `°`.
pub open spec fn numeral_suffix(s: Seq<char>) -> Seq<char> {
    let a = match with_prefix_replaced(s, "ø7"@, "m7b5"@) {
        Some(t) => t,
        None => match with_prefix_replaced(s, "ø"@, "m7b5"@) {
            Some(t) => t,
            None => s,
        },
    };
    let b = match with_prefix_replaced(a, "+"@, "aug"@) {
        Some(t) => t,
        None => a,
    };
    replaced(replaced(b, "maj"@, "M"@), "dim"@, "°"@)
}

/// What [`parse_roman_numeral`] returns.
///
/// White space around the numeral is dropped, and the numeral must not be
/// empty. It is cut at its first `/`; what follows is the bass. In front
/// may stand an accidental. Then comes the longest numeral `I` to `VII`, in
/// capitals or in lower case, which gives the degree; lower case means
/// minor. The rest is the quality suffix. The suffix of the result is the
/// quality suffix in the library's notation, then `/` and the bass if there
/// is one.
pub open spec fn parse_roman_numeral_spec(numeral: Seq<char>) -> Result<
    RomanNumeralModel,
    Failure,
> {
    let text = trimmed(numeral);
    if text.len() == 0 {
        Err(Failure::ParseError("Empty roman numeral"@))
    } else {
        let (main, bass) = split_slash(text);
        let (accidental, rest) = numeral_accidental(main);
        match roman_token(rest) {
            None => Err(Failure::ParseError("No valid roman numeral found in: "@ + numeral)),
            Some((degree, is_minor, len)) => {
                let quality = numeral_suffix(rest.skip(len));
                Ok(
                    RomanNumeralModel {
                        degree,
                        accidental,
                        is_minor,
                        suffix: match bass {
                            Some(b) => quality + "/"@ + b,
                            None => quality,
                        },
                        bass,
                    },
                )
            },
        }
    }
}

/// The accidental in front of a numeral, and how many characters it takes.
pub fn leading_accidental(main: &Vec<char>) -> (r: (Option<Accidental>, usize))
    ensures
        r.0 == numeral_accidental(main@).0,
        r.1 <= main.len(),
        main@.skip(r.1 as int) == numeral_accidental(main@).1,
{
    if main.len() > 1 && main[0] == 'b' && (main[1] == 'I' || main[1] == 'V' || main[1] == 'i'
        || main[1] == 'v') {
        (Some(Accidental::Flat), 1)
    } else if main.len() > 0 && main[0] == '#' {
        (Some(Accidental::Sharp), 1)
    } else {
        assert(main@.skip(0) =~= main@);
        (None, 0)
    }
}

/// The longest numeral in one case that `s` begins with.
pub fn numeral_token(s: &Vec<char>, one: char, five: char) -> (r: Option<(u8, usize)>)
    ensures
        match r {
            Some((degree, len)) => numeral_in_case(s@, one, five) == Some(
                (degree as int, len as int),
            ) && len <= s.len() && 1 <= degree <= 7,
            None => numeral_in_case(s@, one, five) is None,
        },
{
    let n = s.len();
    if n > 0 && s[0] == five {
        if n > 1 && s[1] == one {
            if n > 2 && s[2] == one {
                Some((7, 3))
            } else {
                Some((6, 2))
            }
        } else {
            Some((5, 1))
        }
    } else if n > 0 && s[0] == one {
        if n > 1 && s[1] == five {
            Some((4, 2))
        } else if n > 1 && s[1] == one {
            if n > 2 && s[2] == one {
                Some((3, 3))
            } else {
                Some((2, 2))
            }
        } else {
            Some((1, 1))
        }
    } else {
        None
    }
}

/// The quality suffix of a numeral in the library's notation.
pub fn numeral_suffix_of(s: &Vec<char>) -> (r: Vec<char>)
    ensures
        r@ == numeral_suffix(s@),
{
    let a: Vec<char> = match replace_prefix(s, "ø7", "m7b5") {
        Some(t) => t,
        None => match replace_prefix(s, "ø", "m7b5") {
            Some(t) => t,
            None => {
                let copy = slice(s, 0, s.len());
                assert(copy@ =~= s@);
                copy
            },
        },
    };
    let b: Vec<char> = match replace_prefix(&a, "+", "aug") {
        Some(t) => t,
        None => a,
    };
    replace_all(&replace_all(&b, "maj", "M"), "dim", "°")
}

/// Reads a Roman numeral such as `I`, `ii`, `bVII7`, `vii°7` or `III/4`
/// into degree, accidental, mode, suffix and bass.
pub fn parse_roman_numeral(numeral: &str) -> (r: MusicResult<RomanNumeralParts>)
    ensures
        outcome(r) == parse_roman_numeral_spec(numeral@),
        r is Ok ==> 1 <= r->Ok_0.degree <= 7,
{
    let text = trim(&chars_of(numeral));
    if text.len() == 0 {
        return Err(MusicError::ParseError(String::from_str("Empty roman numeral")));
    }
    let (main, bass) = split_at_slash(&text);
    let (accidental, skip) = leading_accidental(&main);
    let rest = slice(&main, skip, main.len());
    let token = match numeral_token(&rest, 'I', 'V') {
        Some((degree, len)) => Some((degree, false, len)),
        None => match numeral_token(&rest, 'i', 'v') {
            Some((degree, len)) => Some((degree, true, len)),
            None => None,
        },
    };
    match token {
        None => Err(
            MusicError::ParseError(
                String::from_str("No valid roman numeral found in: ").concat(numeral),
            ),
        ),
        Some((degree, is_minor, len)) => {
            let mut suffix = numeral_suffix_of(&slice(&rest, len, rest.len()));
            let ghost quality = suffix@;
            let bass_text: Option<String> = match bass {
                None => None,
                Some(b) => {
                    suffix.push('/');
                    append(&mut suffix, &b);
                    assert(suffix@ =~= quality + "/"@ + b@) by {
                        reveal_strlit("/");
                    }
                    Some(string_of(&b))
                },
            };
            Ok(
                RomanNumeralParts {
                    degree,
                    accidental,
                    is_minor,
                    suffix: string_of(&suffix),
                    bass: bass_text,
                },
            )
        },
    }
}

/// The `i`-th note of the scale of C major.
pub open spec fn c_major_note(i: int) -> Seq<char> {
    if i == 0 {
        "C"@
    } else if i == 1 {
        "D"@
    } else if i == 2 {
        "E"@
    } else if i == 3 {
        "F"@
    } else if i == 4 {
        "G"@
    } else if i == 5 {
        "A"@
    } else {
        "B"@
    }
}

/// The seven notes of the scale of C major, each transposed to `key`.
pub open spec fn major_scale(key: Seq<char>, use_flats: bool) -> Seq<Result<Seq<char>, Failure>> {
    Seq::new(7, |i: int| transpose_chord_spec(c_major_note(i), "C"@, key, use_flats))
}

/// What [`get_scale_degree_note`] returns: the note on the given degree of
/// the major scale of `key`, as the scale of C major transposed to `key`
/// spells it. The key must name a note, and the degree be 1 to 7.
pub open spec fn scale_degree_note_spec(degree: int, key: Seq<char>, use_flats: bool) -> Result<
    Seq<char>,
    Failure,
> {
    match all_or_first_error(major_scale(key, use_flats)) {
        Err(e) => Err(e),
        Ok(scale) => if 1 <= degree <= 7 {
            Ok(scale[degree - 1])
        } else {
            Err(Failure::ParseError("Invalid scale degree: "@ + decimal(degree as nat)))
        },
    }
}

/// The `i`-th note of the scale of C major.
pub fn c_major_note_of(i: usize) -> (r: &'static str)
    requires
        i < 7,
    ensures
        r@ == c_major_note(i as int),
{
    if i == 0 {
        "C"
    } else if i == 1 {
        "D"
    } else if i == 2 {
        "E"
    } else if i == 3 {
        "F"
    } else if i == 4 {
        "G"
    } else if i == 5 {
        "A"
    } else {
        "B"
    }
}

/// The note on a degree, 1 to 7, of the major scale of `key`: degree 4 in
/// `G` is `C`.
pub fn get_scale_degree_note(degree: u8, key: &str, use_flats: bool) -> (r: MusicResult<String>)
    ensures
        outcome(r) == scale_degree_note_spec(degree as int, key@, use_flats),
{
    let ghost items = major_scale(key@, use_flats);
    let mut scale: Vec<String> = Vec::new();
    assert(scale.deep_view() =~= Seq::<Seq<char>>::empty());
    let mut i: usize = 0;
    while i < 7
        invariant
            i <= 7,
            items == major_scale(key@, use_flats),
            scale.len() == i,
            collected(items, i as int) == Ok::<Seq<Seq<char>>, Failure>(scale.deep_view()),
        decreases 7 - i,
    {
        match transpose_chord(c_major_note_of(i), "C", key, use_flats) {
            Ok(note) => {
                push_text(&mut scale, note);
            },
            Err(e) => {
                proof {
                    lemma_collected_error(items, i + 1, 7);
                }
                return Err(e);
            },
        }
        i += 1;
    }
    if degree >= 1 && degree <= 7 {
        Ok(scale[(degree - 1) as usize].clone())
    } else {
        let mut msg = chars_of("Invalid scale degree: ");
        push_decimal(&mut msg, degree);
        Err(MusicError::ParseError(string_of(&msg)))
    }
}

/// The accidental that results when `accidental` is applied to a note that
/// already carries `existing`.
///
/// A flat cancels one sharp and a sharp one flat; a flat adds to one or two
/// flats, a sharp to one or two sharps. A double accidental steps over one
/// accidental of the other kind and otherwise stands as it is. Whatever
/// else the note carried is replaced.
pub open spec fn combined_accidental(existing: Seq<char>, accidental: Accidental) -> Seq<char> {
    match accidental {
        Accidental::Flat => if existing == "#"@ {
            ""@
        } else if existing == "bb"@ {
            "bbb"@
        } else if existing == "b"@ {
            "bb"@
        } else {
            "b"@
        },
        Accidental::Sharp => if existing == "b"@ {
            ""@
        } else if existing == "##"@ {
            "###"@
        } else if existing == "#"@ {
            "##"@
        } else {
            "#"@
        },
        Accidental::DoubleFlat => if existing == "#"@ {
            "b"@
        } else {
            "bb"@
        },
        Accidental::DoubleSharp => if existing == "b"@ {
            "#"@
        } else {
            "##"@
        },
    }
}

/// What [`apply_accidental_to_note`] returns: the note itself without an
/// accidental to apply; otherwise the note must not be empty, and keeps its
/// first character, followed by the combined accidental.
pub open spec fn apply_accidental_spec(note: Seq<char>, accidental: Option<Accidental>) -> Result<
    Seq<char>,
    Failure,
> {
    match accidental {
        None => Ok(note),
        Some(a) => if note.len() == 0 {
            Err(Failure::ParseError("Empty note"@))
        } else {
            Ok(note.take(1) + combined_accidental(note.skip(1), a))
        },
    }
}

/// The accidental that results from applying `accidental` to `existing`.
pub fn combine_accidental(existing: &Vec<char>, accidental: Accidental) -> (r: &'static str)
    ensures
        r@ == combined_accidental(existing@, accidental),
{
    match accidental {
        Accidental::Flat => if is_text(existing, "#") {
            ""
        } else if is_text(existing, "bb") {
            "bbb"
        } else if is_text(existing, "b") {
            "bb"
        } else {
            "b"
        },
        Accidental::Sharp => if is_text(existing, "b") {
            ""
        } else if is_text(existing, "##") {
            "###"
        } else if is_text(existing, "#") {
            "##"
        } else {
            "#"
        },
        Accidental::DoubleFlat => if is_text(existing, "#") {
            "b"
        } else {
            "bb"
        },
        Accidental::DoubleSharp => if is_text(existing, "b") {
            "#"
        } else {
            "##"
        },
    }
}

/// Raises or lowers a note and keeps its letter: `Bb` with a sharp is `B`,
/// `E` with a flat is `Eb`.
pub fn apply_accidental_to_note(note: &str, accidental: Option<Accidental>) -> (r: MusicResult<
    String,
>)
    ensures
        outcome(r) == apply_accidental_spec(note@, accidental),
{
    let a = match accidental {
        None => { return Ok(String::from_str(note)); },
        Some(a) => a,
    };
    let v = chars_of(note);
    if v.len() == 0 {
        return Err(MusicError::ParseError(String::from_str("Empty note")));
    }
    let existing = slice(&v, 1, v.len());
    let letter = slice(&v, 0, 1);
    Ok(string_of(&concat(&letter, &chars_of(combine_accidental(&existing, a)))))
}

/// The suffix of the chord that a numeral stands for, from the mode of the
/// numeral and its quality suffix.
///
/// A quality that begins with `dim` or `°` is written with `dim`; one that
/// begins with `aug` or `m7b5` stands as it is. These take the place of the
/// `m` of a minor numeral. Any other quality follows the `m` of a minor
/// numeral, unless it holds `dim`, `aug` or `°`.
pub open spec fn chord_suffix_of(is_minor: bool, main: Seq<char>) -> Seq<char> {
    if starts_with(main, "dim"@) || starts_with(main, "°"@) {
        replaced(main, "°"@, "dim"@)
    } else if starts_with(main, "aug"@) || starts_with(main, "m7b5"@) {
        main
    } else if is_minor && !contains_text(main, "dim"@) && !contains_text(main, "aug"@)
        && !contains_text(main, "°"@) {
        "m"@ + main
    } else {
        main
    }
}

/// The suffix of the chord that a numeral stands for.
pub fn chord_suffix_for(is_minor: bool, main: &Vec<char>) -> (r: Vec<char>)
    ensures
        r@ == chord_suffix_of(is_minor, main@),
{
    if begins_with(main, "dim") || begins_with(main, "°") {
        replace_all(main, "°", "dim")
    } else if begins_with(main, "aug") || begins_with(main, "m7b5") {
        let copy = slice(main, 0, main.len());
        assert(copy@ =~= main@);
        copy
    } else if is_minor && !has_text(main, "dim") && !has_text(main, "aug") && !has_text(main, "°") {
        concat(&chars_of("m"), main)
    } else {
        let copy = slice(main, 0, main.len());
        assert(copy@ =~= main@);
        copy
    }
}

/// The distance in semitones above the root of a chord tone written as a
/// number: `5` is the fifth, `b7` the minor seventh, `9` the second. `3` and
/// `7` are minor in a minor chord and major otherwise.
pub open spec fn chord_tone_interval(tone: Seq<char>, is_minor: bool) -> Option<int> {
    if tone == "1"@ {
        Some(0)
    } else if tone == "2"@ || tone == "9"@ {
        Some(2)
    } else if tone == "b3"@ {
        Some(3)
    } else if tone == "3"@ {
        Some(
            if is_minor {
                3
            } else {
                4
            },
        )
    } else if tone == "4"@ || tone == "11"@ {
        Some(5)
    } else if tone == "b5"@ {
        Some(6)
    } else if tone == "5"@ {
        Some(7)
    } else if tone == "#5"@ {
        Some(8)
    } else if tone == "6"@ || tone == "13"@ {
        Some(9)
    } else if tone == "b7"@ {
        Some(10)
    } else if tone == "7"@ {
        Some(
            if is_minor {
                10
            } else {
                11
            },
        )
    } else {
        None
    }
}

/// The distance above the root of a chord tone written as a number.
pub fn chord_tone_interval_of(tone: &Vec<char>, is_minor: bool) -> (r: Option<u8>)
    ensures
        match r {
            Some(i) => chord_tone_interval(tone@, is_minor) == Some(i as int) && i < 12,
            None => chord_tone_interval(tone@, is_minor) is None,
        },
{
    if is_text(tone, "1") {
        Some(0)
    } else if is_text(tone, "2") || is_text(tone, "9") {
        Some(2)
    } else if is_text(tone, "b3") {
        Some(3)
    } else if is_text(tone, "3") {
        Some(
            if is_minor {
                3
            } else {
                4
            },
        )
    } else if is_text(tone, "4") || is_text(tone, "11") {
        Some(5)
    } else if is_text(tone, "b5") {
        Some(6)
    } else if is_text(tone, "5") {
        Some(7)
    } else if is_text(tone, "#5") {
        Some(8)
    } else if is_text(tone, "6") || is_text(tone, "13") {
        Some(9)
    } else if is_text(tone, "b7") {
        Some(10)
    } else if is_text(tone, "7") {
        Some(
            if is_minor {
                10
            } else {
                11
            },
        )
    } else {
        None
    }
}

/// The chord with root `root` that the parts of a numeral stand for.
///
/// The suffix of the parts is cut at its first `/`. What stands before
/// gives the chord's suffix. What follows, if it is a chord tone written as
/// a number, gives the bass: the note that far above the root, spelled for
/// `key`; any other text is put behind the `/` as it is.
pub open spec fn chord_on_root(
    root: Seq<char>,
    is_minor: bool,
    suffix: Seq<char>,
    key: Seq<char>,
    use_flats: bool,
) -> Result<Seq<char>, Failure> {
    let (main, bass) = split_slash(suffix);
    let chord = root + chord_suffix_of(is_minor, main);
    match bass {
        None => Ok(chord),
        Some(tone) => match chord_tone_interval(tone, is_minor) {
            None => Ok(chord + "/"@ + tone),
            Some(interval) => match note_index_spec(root) {
                Err(e) => Err(e),
                Ok(pitch) => Ok(
                    chord + "/"@ + preferred_note_name((pitch + interval) % 12, key, use_flats),
                ),
            },
        },
    }
}

/// The chord with root `root` that the parts of a numeral stand for.
pub fn build_chord_on_root(root: &str, is_minor: bool, suffix: &str, key: &str, use_flats: bool) -> (r:
    MusicResult<String>)
    ensures
        outcome(r) == chord_on_root(root@, is_minor, suffix@, key@, use_flats),
{
    let (main, bass) = split_at_slash(&chars_of(suffix));
    let chord = String::from_str(root).concat(string_of(&chord_suffix_for(is_minor, &main)).as_str());
    match bass {
        None => Ok(chord),
        Some(tone) => match chord_tone_interval_of(&tone, is_minor) {
            None => Ok(chord.concat("/").concat(string_of(&tone).as_str())),
            Some(interval) => {
                let pitch = note_index(root)?;
                let bass_note = preferred_name_in((pitch + interval) % 12, &chars_of(key), use_flats);
                Ok(chord.concat("/").concat(bass_note))
            },
        },
    }
}

/// What [`roman_numeral_to_chord`] returns.
///
/// The numeral must parse and the key name a note. The root is the note on
/// the numeral's degree of the major scale of `key`, with the numeral's
/// accidental applied on top of the one it has; the rest is the chord that
/// the numeral's parts stand for on that root.
pub open spec fn roman_numeral_to_chord_spec(numeral: Seq<char>, key: Seq<char>, use_flats: bool) -> Result<
    Seq<char>,
    Failure,
> {
    match parse_roman_numeral_spec(numeral) {
        Err(e) => Err(e),
        Ok(parts) => match scale_degree_note_spec(parts.degree, key, use_flats) {
            Err(e) => Err(e),
            Ok(note) => match apply_accidental_spec(note, parts.accidental) {
                Err(e) => Err(e),
                Ok(root) => chord_on_root(root, parts.is_minor, parts.suffix, key, use_flats),
            },
        },
    }
}

/// The chord that a Roman numeral stands for in a key: `ii` in `C` is `Dm`,
/// `bVII` is `Bb`, `V7` is `G7`.
pub fn roman_numeral_to_chord(numeral: &str, key: &str, use_flats: bool) -> (r: MusicResult<String>)
    ensures
        outcome(r) == roman_numeral_to_chord_spec(numeral@, key@, use_flats),
{
    let parts = parse_roman_numeral(numeral)?;
    let note = get_scale_degree_note(parts.degree, key, use_flats)?;
    let root = apply_accidental_to_note(note.as_str(), parts.accidental)?;
    build_chord_on_root(root.as_str(), parts.is_minor, parts.suffix.as_str(), key, use_flats)
}

/// The numeral of a major chord on step `step`, `0..=6`, of the scale.
pub open spec fn major_base(step: int) -> Seq<char> {
    if step == 0 {
        "I"@
    } else if step == 1 {
        "II"@
    } else if step == 2 {
        "III"@
    } else if step == 3 {
        "IV"@
    } else if step == 4 {
        "V"@
    } else if step == 5 {
        "VI"@
    } else {
        "VII"@
    }
}
/// The numeral of a minor chord on step `step`, `0..=6`, of the scale.
pub open spec fn minor_base(step: int) -> Seq<char> {
    if step == 0 {
        "i"@
    } else if step == 1 {
        "ii"@
    } else if step == 2 {
        "iii"@
    } else if step == 3 {
        "iv"@
    } else if step == 4 {
        "v"@
    } else if step == 5 {
        "vi"@
    } else {
        "vii"@
    }
}
/// The numeral of a major chord on a step of the scale.
pub fn major_base_of(step: u8) -> (r: &'static str)
    requires
        step < 7,
    ensures
        r@ == major_base(step as int),
{
    if step == 0 {
        "I"
    } else if step == 1 {
        "II"
    } else if step == 2 {
        "III"
    } else if step == 3 {
        "IV"
    } else if step == 4 {
        "V"
    } else if step == 5 {
        "VI"
    } else {
        "VII"
    }
}
/// The numeral of a minor chord on a step of the scale.
pub fn minor_base_of(step: u8) -> (r: &'static str)
    requires
        step < 7,
    ensures
        r@ == minor_base(step as int),
{
    if step == 0 {
        "i"
    } else if step == 1 {
        "ii"
    } else if step == 2 {
        "iii"
    } else if step == 3 {
        "iv"
    } else if step == 4 {
        "v"
    } else if step == 5 {
        "vi"
    } else {
        "vii"
    }
}
/// The capital numeral of the chord whose root lies `interval` semitones,
/// `0..=11`, above the key note.
pub open spec fn lookup_major(interval: int) -> Seq<char> {
    if interval == 0 {
        "I"@
    } else if interval == 1 {
        "bII"@
    } else if interval == 2 {
        "II"@
    } else if interval == 3 {
        "bIII"@
    } else if interval == 4 {
        "III"@
    } else if interval == 5 {
        "IV"@
    } else if interval == 6 {
        "#IV"@
    } else if interval == 7 {
        "V"@
    } else if interval == 8 {
        "bVI"@
    } else if interval == 9 {
        "VI"@
    } else if interval == 10 {
        "bVII"@
    } else {
        "VII"@
    }
}
/// The lower-case numeral of the chord whose root lies `interval`
/// semitones, `0..=11`, above the key note.
pub open spec fn lookup_minor(interval: int) -> Seq<char> {
    if interval == 0 {
        "i"@
    } else if interval == 1 {
        "bii"@
    } else if interval == 2 {
        "ii"@
    } else if interval == 3 {
        "biii"@
    } else if interval == 4 {
        "iii"@
    } else if interval == 5 {
        "iv"@
    } else if interval == 6 {
        "#iv"@
    } else if interval == 7 {
        "v"@
    } else if interval == 8 {
        "bvi"@
    } else if interval == 9 {
        "vi"@
    } else if interval == 10 {
        "bvii"@
    } else {
        "vii"@
    }
}
/// The capital numeral for a distance above the key note.
pub fn lookup_major_of(interval: u8) -> (r: &'static str)
    requires
        interval < 12,
    ensures
        r@ == lookup_major(interval as int),
{
    if interval == 0 {
        "I"
    } else if interval == 1 {
        "bII"
    } else if interval == 2 {
        "II"
    } else if interval == 3 {
        "bIII"
    } else if interval == 4 {
        "III"
    } else if interval == 5 {
        "IV"
    } else if interval == 6 {
        "#IV"
    } else if interval == 7 {
        "V"
    } else if interval == 8 {
        "bVI"
    } else if interval == 9 {
        "VI"
    } else if interval == 10 {
        "bVII"
    } else {
        "VII"
    }
}
/// The lower-case numeral for a distance above the key note.
pub fn lookup_minor_of(interval: u8) -> (r: &'static str)
    requires
        interval < 12,
    ensures
        r@ == lookup_minor(interval as int),
{
    if interval == 0 {
        "i"
    } else if interval == 1 {
        "bii"
    } else if interval == 2 {
        "ii"
    } else if interval == 3 {
        "biii"
    } else if interval == 4 {
        "iii"
    } else if interval == 5 {
        "iv"
    } else if interval == 6 {
        "#iv"
    } else if interval == 7 {
        "v"
    } else if interval == 8 {
        "bvi"
    } else if interval == 9 {
        "vi"
    } else if interval == 10 {
        "bvii"
    } else {
        "vii"
    }
}
/// The distance in semitones of step `step`, `0..=6`, of the major scale
/// above its first note.
pub open spec fn major_scale_step(step: int) -> int {
    if step == 0 {
        0
    } else if step == 1 {
        2
    } else if step == 2 {
        4
    } else if step == 3 {
        5
    } else if step == 4 {
        7
    } else if step == 5 {
        9
    } else {
        11
    }
}

/// The capital form of an ASCII lower-case letter; any other character
/// unchanged.
pub open spec fn capital(c: char) -> char {
    if 'a' <= c && c <= 'z' {
        ((c as u8) - 32) as char
    } else {
        c
    }
}

/// The capital form of `c`.
pub fn to_capital(c: char) -> (r: char)
    ensures
        r == capital(c),
{
    if c >= 'a' && c <= 'z' {
        ((c as u8) - 32) as char
    } else {
        c
    }
}

/// The accidental a root is written with: `#` if it holds one, else `b` if
/// it holds one, else none.
pub open spec fn root_accidental(root: Seq<char>) -> Seq<char> {
    if root.contains('#') {
        "#"@
    } else if root.contains('b') {
        "b"@
    } else {
        ""@
    }
}

/// The accidental a numeral is shown with, from the pitch class of the
/// chord's root and the pitch class that the scale has on its letter: none
/// when they agree, `b` or `#` when the root lies one semitone below or
/// above, and otherwise the accidental the root is written with.
pub open spec fn display_accidental(pitch: int, expected: int, root: Seq<char>) -> Seq<char> {
    let diff = (pitch - expected) % 12;
    if diff == 0 {
        ""@
    } else if diff == 11 {
        "b"@
    } else if diff == 1 {
        "#"@
    } else {
        root_accidental(root)
    }
}

/// Whether a chord suffix makes a minor chord: it begins with `m`, but not
/// with `maj`.
pub open spec fn is_minor_suffix(suffix: Seq<char>) -> bool {
    starts_with(suffix, "m"@) && !starts_with(suffix, "maj"@)
}

/// Whether a chord suffix makes a minor chord.
pub fn minor_suffix(suffix: &Vec<char>) -> (r: bool)
    ensures
        r == is_minor_suffix(suffix@),
{
    begins_with(suffix, "m") && !begins_with(suffix, "maj")
}

/// `numeral` with the mark of the chord's quality behind it.
///
/// The `m` of a minor suffix is left out, as the lower case says it, but
/// `m7b5` is kept whole. Then: `7` for a suffix with a `7` that is not
/// `maj7`; `maj7`; for `dim` the numeral in lower case with `°`; `+` for
/// `aug`; `sus`; any other suffix as it is.
pub open spec fn numeral_with_quality(numeral: Seq<char>, suffix: Seq<char>) -> Seq<char> {
    let s = if is_minor_suffix(suffix) && !starts_with(suffix, "m7b5"@) {
        suffix.skip(1)
    } else {
        suffix
    };
    if contains_text(s, "maj7"@) {
        numeral + "maj7"@
    } else if contains_text(s, "7"@) {
        numeral + "7"@
    } else if contains_text(s, "dim"@) {
        lowered(numeral) + "°"@
    } else if contains_text(s, "aug"@) {
        numeral + "+"@
    } else if contains_text(s, "sus"@) {
        numeral + "sus"@
    } else {
        numeral + s
    }
}

/// `numeral` with the mark of the chord's quality behind it.
pub fn add_quality(numeral: &Vec<char>, suffix: &Vec<char>) -> (r: Vec<char>)
    ensures
        r@ == numeral_with_quality(numeral@, suffix@),
{
    let s: Vec<char> = if minor_suffix(suffix) && !begins_with(suffix, "m7b5") {
        proof {
            reveal_strlit("m");
        }
        slice(suffix, 1, suffix.len())
    } else {
        let copy = slice(suffix, 0, suffix.len());
        assert(copy@ =~= suffix@);
        copy
    };
    if has_text(&s, "maj7") {
        concat(numeral, &chars_of("maj7"))
    } else if has_text(&s, "7") {
        concat(numeral, &chars_of("7"))
    } else if has_text(&s, "dim") {
        concat(&to_lower(numeral), &chars_of("°"))
    } else if has_text(&s, "aug") {
        concat(numeral, &chars_of("+"))
    } else if has_text(&s, "sus") {
        concat(numeral, &chars_of("sus"))
    } else {
        concat(numeral, &s)
    }
}

/// The numeral, without quality and bass, of a chord whose root stands on
/// step `step`, `0..=6`, of the scale: the accidental that tells how far the
/// root lies from the note of the major scale on that step, then the
/// numeral of the step, in lower case for a minor chord.
pub open spec fn numeral_on_step(
    root: Seq<char>,
    minor: bool,
    step: int,
    pitch: int,
    key_pitch: int,
) -> Seq<char> {
    display_accidental(pitch, (key_pitch + major_scale_step(step)) % 12, root) + (if minor {
        minor_base(step)
    } else {
        major_base(step)
    })
}

/// The numeral, without quality and bass, of a chord whose root stands on
/// the given step of the scale.
pub fn numeral_on_step_of(root: &Vec<char>, minor: bool, step: u8, pitch: u8, key_pitch: u8) -> (r:
    Vec<char>)
    requires
        step < 7,
        pitch < 12,
        key_pitch < 12,
    ensures
        r@ == numeral_on_step(root@, minor, step as int, pitch as int, key_pitch as int),
{
    let expected: u8 = (key_pitch + major_scale_step_of(step)) % 12;
    let accidental = chars_of(display_accidental_of(pitch, expected, root));
    let base = chars_of(
        if minor {
            minor_base_of(step)
        } else {
            major_base_of(step)
        },
    );
    concat(&accidental, &base)
}

/// The number of letters from the key's letter up to the root's letter.
pub fn letter_step(root_letter: u8, key_letter: u8) -> (r: u8)
    requires
        root_letter < 7,
        key_letter < 7,
    ensures
        r == (root_letter - key_letter) % 7,
        r < 7,
{
    (root_letter + 7 - key_letter) % 7
}

/// The numeral, without quality and bass, of a chord with root `root` in
/// `key`.
///
/// The step of the scale is counted in letters, from the key's letter to
/// the root's letter, never in semitones. The accidental tells how far the
/// root lies from the note that the major scale has on that step. The
/// numeral is in lower case for a minor chord.
pub open spec fn numeral_base(root: Seq<char>, minor: bool, key: Seq<char>) -> Result<
    Seq<char>,
    Failure,
> {
    if key.len() == 0 {
        Err(Failure::ParseError("Key cannot be empty"@))
    } else {
        match letter_index(root[0]) {
            None => Err(Failure::ParseError("Invalid note letter: "@ + seq![root[0]])),
            Some(root_letter) => match letter_index(capital(key[0])) {
                None => Err(Failure::ParseError("Invalid key letter: "@ + seq![capital(key[0])])),
                Some(key_letter) => match note_index_spec(root) {
                    Err(e) => Err(e),
                    Ok(pitch) => match note_index_spec(key) {
                        Err(e) => Err(e),
                        Ok(key_pitch) => Ok(
                            numeral_on_step(
                                root,
                                minor,
                                (root_letter - key_letter) % 7,
                                pitch as int,
                                key_pitch as int,
                            ),
                        ),
                    },
                },
            },
        }
    }
}

/// The accidental a numeral is shown with.
pub fn display_accidental_of(pitch: u8, expected: u8, root: &Vec<char>) -> (r: &'static str)
    requires
        pitch < 12,
        expected < 12,
    ensures
        r@ == display_accidental(pitch as int, expected as int, root@),
{
    let diff: u8 = (pitch + 12 - expected) % 12;
    if diff == 0 {
        ""
    } else if diff == 11 {
        "b"
    } else if diff == 1 {
        "#"
    } else if find_char(root, '#') < root.len() {
        "#"
    } else if find_char(root, 'b') < root.len() {
        "b"
    } else {
        ""
    }
}

/// The numeral, without quality and bass, of a chord with the given root.
pub fn numeral_base_of(root: &str, minor: bool, key: &str) -> (r: MusicResult<Vec<char>>)
    requires
        root@.len() > 0,
    ensures
        match r {
            Ok(v) => numeral_base(root@, minor, key@) == Ok::<Seq<char>, Failure>(v@),
            Err(e) => numeral_base(root@, minor, key@) == Err::<Seq<char>, Failure>(e.deep_view()),
        },
{
    let r = chars_of(root);
    let k = chars_of(key);
    if k.len() == 0 {
        return Err(MusicError::ParseError(String::from_str("Key cannot be empty")));
    }
    let root_letter = match letter_to_index(r[0]) {
        Some(i) => i,
        None => {
            let mut msg = chars_of("Invalid note letter: ");
            msg.push(r[0]);
            assert(msg@ =~= "Invalid note letter: "@ + seq![r@[0]]);
            return Err(MusicError::ParseError(string_of(&msg)));
        },
    };
    let key_capital = to_capital(k[0]);
    let key_letter = match letter_to_index(key_capital) {
        Some(i) => i,
        None => {
            let mut msg = chars_of("Invalid key letter: ");
            msg.push(key_capital);
            assert(msg@ =~= "Invalid key letter: "@ + seq![key_capital]);
            return Err(MusicError::ParseError(string_of(&msg)));
        },
    };
    let pitch = note_index(root)?;
    let key_pitch = note_index(key)?;
    Ok(numeral_on_step_of(&r, minor, letter_step(root_letter, key_letter), pitch, key_pitch))
}

/// The distance in semitones of a step of the major scale above its first
/// note.
pub fn major_scale_step_of(step: u8) -> (r: u8)
    requires
        step < 7,
    ensures
        r == major_scale_step(step as int),
        r < 12,
{
    if step == 0 {
        0
    } else if step == 1 {
        2
    } else if step == 2 {
        4
    } else if step == 3 {
        5
    } else if step == 4 {
        7
    } else if step == 5 {
        9
    } else {
        11
    }
}

/// What [`get_chord_numeral`] returns.
///
/// The chord must not be empty. It is cut at its first `/`; what stands
/// before must parse as a chord with a root, and what follows is the bass.
/// The numeral is the base for the root in the key, with the mark of the
/// chord's quality, then `/` and the bass as it is written.
pub open spec fn get_chord_numeral_spec(chord: Seq<char>, key: Seq<char>) -> Result<
    Seq<char>,
    Failure,
> {
    if chord.len() == 0 {
        Err(Failure::ParseError("Chord cannot be empty"@))
    } else {
        let (main, bass) = split_slash(chord);
        match parse_chord_spec(main) {
            Err(e) => Err(e),
            Ok(parsed) => if parsed.root.len() == 0 {
                Err(Failure::ParseError("Invalid chord format"@))
            } else {
                match numeral_base(parsed.root, is_minor_suffix(parsed.suffix), key) {
                    Err(e) => Err(e),
                    Ok(base) => {
                        let numeral = numeral_with_quality(base, parsed.suffix);
                        match bass {
                            Some(b) => Ok(numeral + "/"@ + b),
                            None => Ok(numeral),
                        }
                    },
                }
            },
        }
    }
}

/// The Roman numeral of a chord in a key, true to the chord's spelling: in
/// `C`, `F#m` is `#iv` and `Gbm` is `bv`.
pub fn get_chord_numeral(chord: &str, key: &str) -> (r: MusicResult<String>)
    ensures
        outcome(r) == get_chord_numeral_spec(chord@, key@),
{
    let v = chars_of(chord);
    if v.len() == 0 {
        return Err(MusicError::ParseError(String::from_str("Chord cannot be empty")));
    }
    let (main, bass) = split_at_slash(&v);
    let parsed = parse_chord(string_of(&main).as_str())?;
    if parsed.root.as_str().unicode_len() == 0 {
        return Err(MusicError::ParseError(String::from_str("Invalid chord format")));
    }
    let suffix = chars_of(parsed.suffix.as_str());
    let base = numeral_base_of(parsed.root.as_str(), minor_suffix(&suffix), key)?;
    let mut numeral = add_quality(&base, &suffix);
    match bass {
        None => {},
        Some(b) => {
            let ghost before = numeral@;
            numeral.push('/');
            append(&mut numeral, &b);
            assert(numeral@ =~= before + "/"@ + b@) by {
                reveal_strlit("/");
            }
        },
    }
    Ok(string_of(&numeral))
}

/// Whether a chord suffix says diminished: it holds `dim`, in any case, or
/// `°`.
pub open spec fn says_diminished(suffix: Seq<char>) -> bool {
    contains_text(lowered(suffix), "dim"@) || suffix.contains('°')
}

/// Whether a chord suffix says augmented: it holds `aug`, in any case, or
/// `+`.
pub open spec fn says_augmented(suffix: Seq<char>) -> bool {
    contains_text(lowered(suffix), "aug"@) || suffix.contains('+')
}

/// What [`format_suffix_for_lookup`] returns.
///
/// A diminished chord is marked `°7` if its suffix holds `dim7` and `°`
/// otherwise; an augmented chord `+7` or `+` in the same way. The
/// half-diminished suffixes `m7b5`, `ø7`, `ø` are marked `ø7`, and the
/// minor-major sevenths `mM7`, `mmaj7` are marked `M7`. Any other suffix
/// loses the `m` of a minor chord, has `maj` before 7, 9, 11 and 13
/// shortened to `M`, is dropped if it is `maj` alone, and loses its
/// parentheses.
pub open spec fn format_suffix_for_lookup_spec(
    suffix: Seq<char>,
    is_dim: bool,
    is_aug: bool,
    is_minor: bool,
) -> Seq<char> {
    let lower = lowered(suffix);
    if is_dim && contains_text(lower, "dim7"@) {
        "°7"@
    } else if is_dim && says_diminished(suffix) {
        "°"@
    } else if is_aug && contains_text(lower, "aug7"@) {
        "+7"@
    } else if is_aug && says_augmented(suffix) {
        "+"@
    } else if suffix == "m7b5"@ || suffix == "ø7"@ || suffix == "ø"@ {
        "ø7"@
    } else if lower == "mm7"@ || lower == "mmaj7"@ {
        "M7"@
    } else {
        shortened_suffix(
            if is_minor && is_minor_suffix(suffix) {
                suffix.skip(1)
            } else {
                suffix
            },
        )
    }
}

/// A suffix with `maj7`, `maj9`, `maj11`, `maj13` shortened to `M7`, `M9`,
/// `M11`, `M13`; then nothing if `maj` alone is left; then without
/// parentheses.
pub open spec fn shortened_suffix(suffix: Seq<char>) -> Seq<char> {
    let short = replaced(
        replaced(replaced(replaced(suffix, "maj7"@, "M7"@), "maj9"@, "M9"@), "maj11"@, "M11"@),
        "maj13"@,
        "M13"@,
    );
    if short == "maj"@ {
        Seq::empty()
    } else {
        without(short, "()"@)
    }
}

/// A suffix with its major extensions shortened and without parentheses.
pub fn shorten_suffix(suffix: &Vec<char>) -> (r: Vec<char>)
    ensures
        r@ == shortened_suffix(suffix@),
{
    let short = replace_all(
        &replace_all(&replace_all(&replace_all(suffix, "maj7", "M7"), "maj9", "M9"), "maj11", "M11"),
        "maj13",
        "M13",
    );
    if is_text(&short, "maj") {
        Vec::new()
    } else {
        remove_chars(&short, "()")
    }
}

/// Whether a chord suffix says diminished.
pub fn is_diminished(suffix: &Vec<char>) -> (r: bool)
    ensures
        r == says_diminished(suffix@),
{
    has_text(&to_lower(suffix), "dim") || find_char(suffix, '°') < suffix.len()
}

/// Whether a chord suffix says augmented.
pub fn is_augmented(suffix: &Vec<char>) -> (r: bool)
    ensures
        r == says_augmented(suffix@),
{
    has_text(&to_lower(suffix), "aug") || find_char(suffix, '+') < suffix.len()
}

/// The mark that a chord's suffix leaves behind a lookup numeral; the three
/// flags say whether the chord counts as diminished, augmented, minor.
pub fn format_suffix_for_lookup(suffix: &str, is_dim: bool, is_aug: bool, is_minor: bool) -> (r:
    String)
    ensures
        r@ == format_suffix_for_lookup_spec(suffix@, is_dim, is_aug, is_minor),
{
    let v = chars_of(suffix);
    let lower = to_lower(&v);
    if is_dim && has_text(&lower, "dim7") {
        String::from_str("°7")
    } else if is_dim && is_diminished(&v) {
        String::from_str("°")
    } else if is_aug && has_text(&lower, "aug7") {
        String::from_str("+7")
    } else if is_aug && is_augmented(&v) {
        String::from_str("+")
    } else if is_text(&v, "m7b5") || is_text(&v, "ø7") || is_text(&v, "ø") {
        String::from_str("ø7")
    } else if is_text(&lower, "mm7") || is_text(&lower, "mmaj7") {
        String::from_str("M7")
    } else if is_minor && minor_suffix(&v) {
        proof {
            reveal_strlit("m");
        }
        string_of(&shorten_suffix(&slice(&v, 1, v.len())))
    } else {
        string_of(&shorten_suffix(&v))
    }
}

/// The name of the chord tone that lies `interval` semitones, `0..=11`,
/// above the root. The thirds are named from the chord's own third: in a
/// minor chord three semitones are `3` and four are `#3`, otherwise `b3`
/// and `3`.
pub open spec fn chord_tone_name(interval: int, is_minor: bool) -> Seq<char> {
    if interval == 0 {
        "1"@
    } else if interval == 1 {
        "b2"@
    } else if interval == 2 {
        "2"@
    } else if interval == 3 {
        if is_minor {
            "3"@
        } else {
            "b3"@
        }
    } else if interval == 4 {
        if is_minor {
            "#3"@
        } else {
            "3"@
        }
    } else if interval == 5 {
        "4"@
    } else if interval == 6 {
        "b5"@
    } else if interval == 7 {
        "5"@
    } else if interval == 8 {
        "#5"@
    } else if interval == 9 {
        "6"@
    } else if interval == 10 {
        "b7"@
    } else {
        "7"@
    }
}

/// What [`get_bass_chord_tone_for_lookup`] returns: root and bass must name
/// notes; the answer is the name of the chord tone at the bass's distance
/// above the root.
pub open spec fn bass_chord_tone_spec(root: Seq<char>, bass: Seq<char>, is_minor: bool) -> Result<
    Seq<char>,
    Failure,
> {
    match note_index_spec(root) {
        Err(e) => Err(e),
        Ok(root_pitch) => match note_index_spec(bass) {
            Err(e) => Err(e),
            Ok(bass_pitch) => Ok(chord_tone_name((bass_pitch - root_pitch) % 12, is_minor)),
        },
    }
}

/// The name of the chord tone at a distance above the root.
pub fn chord_tone_name_of(interval: u8, is_minor: bool) -> (r: &'static str)
    requires
        interval < 12,
    ensures
        r@ == chord_tone_name(interval as int, is_minor),
{
    if interval == 0 {
        "1"
    } else if interval == 1 {
        "b2"
    } else if interval == 2 {
        "2"
    } else if interval == 3 {
        if is_minor {
            "3"
        } else {
            "b3"
        }
    } else if interval == 4 {
        if is_minor {
            "#3"
        } else {
            "3"
        }
    } else if interval == 5 {
        "4"
    } else if interval == 6 {
        "b5"
    } else if interval == 7 {
        "5"
    } else if interval == 8 {
        "#5"
    } else if interval == 9 {
        "6"
    } else if interval == 10 {
        "b7"
    } else {
        "7"
    }
}

/// The bass of a slash chord as a chord tone: `E` under `C` is `3`, `G`
/// under `C` is `5`. The suffix plays no part.
pub fn get_bass_chord_tone_for_lookup(root: &str, bass: &str, _suffix: &str, is_minor: bool) -> (r:
    MusicResult<String>)
    ensures
        outcome(r) == bass_chord_tone_spec(root@, bass@, is_minor),
{
    let root_pitch = note_index(root)?;
    let bass_pitch = note_index(bass)?;
    Ok(String::from_str(chord_tone_name_of(semitones_up(root_pitch, bass_pitch), is_minor)))
}

/// The lookup numeral, with the mark of the quality, of a chord whose root
/// lies `interval` semitones above the key note. A diminished chord takes
/// the lower-case numeral, an augmented chord the capital one, any other
/// chord the one of its mode.
pub open spec fn lookup_numeral(interval: int, suffix: Seq<char>) -> Seq<char> {
    let is_dim = says_diminished(suffix);
    let is_aug = says_augmented(suffix);
    let is_minor = is_minor_suffix(suffix);
    (if is_dim || (!is_aug && is_minor) {
        lookup_minor(interval)
    } else {
        lookup_major(interval)
    }) + format_suffix_for_lookup_spec(suffix, is_dim, is_aug, is_minor)
}

/// The lookup numeral, with the mark of the quality, for a distance above
/// the key note.
pub fn lookup_numeral_of(interval: u8, suffix: &str) -> (r: String)
    requires
        interval < 12,
    ensures
        r@ == lookup_numeral(interval as int, suffix@),
{
    let v = chars_of(suffix);
    let is_dim = is_diminished(&v);
    let is_aug = is_augmented(&v);
    let is_minor = minor_suffix(&v);
    let base = if is_dim || (!is_aug && is_minor) {
        lookup_minor_of(interval)
    } else {
        lookup_major_of(interval)
    };
    String::from_str(base).concat(
        format_suffix_for_lookup(suffix, is_dim, is_aug, is_minor).as_str(),
    )
}

/// What [`get_chord_numeral_for_lookup`] returns.
///
/// The chord must not be empty. It is cut at its first `/`; what stands
/// before must parse as a chord with a root, and root and key must name
/// notes. The numeral goes by the distance in semitones from the key note
/// to the root, so that two spellings of one pitch give one numeral. The
/// bass of a slash chord, which must name a note, follows a `/` as a chord
/// tone.
pub open spec fn get_chord_numeral_for_lookup_spec(chord: Seq<char>, key: Seq<char>) -> Result<
    Seq<char>,
    Failure,
> {
    if chord.len() == 0 {
        Err(Failure::ParseError("Chord cannot be empty"@))
    } else {
        let (main, bass) = split_slash(chord);
        match parse_chord_spec(main) {
            Err(e) => Err(e),
            Ok(parsed) => if parsed.root.len() == 0 {
                Err(Failure::ParseError("Invalid chord format"@))
            } else {
                match note_index_spec(parsed.root) {
                    Err(e) => Err(e),
                    Ok(root) => match note_index_spec(key) {
                        Err(e) => Err(e),
                        Ok(key_pitch) => {
                            let numeral = lookup_numeral((root - key_pitch) % 12, parsed.suffix);
                            match bass {
                                None => Ok(numeral),
                                Some(b) => match bass_chord_tone_spec(
                                    parsed.root,
                                    b,
                                    is_minor_suffix(parsed.suffix),
                                ) {
                                    Err(e) => Err(e),
                                    Ok(tone) => Ok(numeral + "/"@ + tone),
                                },
                            }
                        },
                    },
                }
            },
        }
    }
}

/// The lookup numeral goes by pitch alone: two chords with the same suffix
/// and bass, whose roots are two spellings of one pitch, have the same
/// lookup numeral in every key.
pub proof fn lemma_lookup_goes_by_pitch(one: Seq<char>, other: Seq<char>, key: Seq<char>)
    requires
        one.len() > 0,
        other.len() > 0,
        split_slash(one).1 == split_slash(other).1,
        parse_chord_spec(split_slash(one).0) is Ok,
        parse_chord_spec(split_slash(other).0) is Ok,
        parse_chord_spec(split_slash(one).0)->Ok_0.suffix == parse_chord_spec(
            split_slash(other).0,
        )->Ok_0.suffix,
        pitch_class(parse_chord_spec(split_slash(one).0)->Ok_0.root) is Some,
        pitch_class(parse_chord_spec(split_slash(one).0)->Ok_0.root) == pitch_class(
            parse_chord_spec(split_slash(other).0)->Ok_0.root,
        ),
    ensures
        get_chord_numeral_for_lookup_spec(one, key) == get_chord_numeral_for_lookup_spec(
            other,
            key,
        ),
{
}

/// The Roman numeral of a chord in a key by pitch alone, for looking up
/// data that was keyed in this way: in `C`, both `F#m` and `Gbm` are `#iv`.
pub fn get_chord_numeral_for_lookup(chord: &str, key: &str) -> (r: MusicResult<String>)
    ensures
        outcome(r) == get_chord_numeral_for_lookup_spec(chord@, key@),
{
    let v = chars_of(chord);
    if v.len() == 0 {
        return Err(MusicError::ParseError(String::from_str("Chord cannot be empty")));
    }
    let (main, bass) = split_at_slash(&v);
    let parsed = parse_chord(string_of(&main).as_str())?;
    if parsed.root.as_str().unicode_len() == 0 {
        return Err(MusicError::ParseError(String::from_str("Invalid chord format")));
    }
    let root = note_index(parsed.root.as_str())?;
    let key_pitch = note_index(key)?;
    let numeral = lookup_numeral_of(semitones_up(key_pitch, root), parsed.suffix.as_str());
    match bass {
        None => Ok(numeral),
        Some(b) => {
            let minor = minor_suffix(&chars_of(parsed.suffix.as_str()));
            let tone = get_bass_chord_tone_for_lookup(
                parsed.root.as_str(),
                string_of(&b).as_str(),
                parsed.suffix.as_str(),
                minor,
            )?;
            Ok(numeral.concat("/").concat(tone.as_str()))
        },
    }
}

/// The numeral as it is shown beside the chord `chord`: where both hold a
/// `/`, the numeral up to its first `/`, then `/` and the bass of the
/// chord, without surrounding white space; otherwise the numeral itself.
pub open spec fn display_form(numeral: Seq<char>, chord: Seq<char>) -> Seq<char> {
    if numeral.contains('/') && chord.contains('/') {
        split_slash(numeral).0 + "/"@ + trimmed(split_slash(chord).1->0)
    } else {
        numeral
    }
}

/// Puts the bass of a slash chord, by its note name, behind the `/` of the
/// chord's numeral: `bVII/5` beside `Bb/F` becomes `bVII/F`. This never
/// fails.
pub fn roman_numeral_for_display(numeral: &str, chord: &str) -> (r: MusicResult<String>)
    ensures
        r is Ok,
        r->Ok_0@ == display_form(numeral@, chord@),
{
    let n = chars_of(numeral);
    let c = chars_of(chord);
    let (base, numeral_bass) = split_at_slash(&n);
    let (_main, chord_bass) = split_at_slash(&c);
    match (numeral_bass, chord_bass) {
        (Some(_), Some(bass)) => Ok(
            string_of(&base).concat("/").concat(string_of(&trim(&bass)).as_str()),
        ),
        _ => Ok(String::from_str(numeral)),
    }
}

/// What [`get_display_numeral`] returns: the numeral of the chord, true to
/// its spelling, in the form in which it is shown beside the chord.
pub open spec fn get_display_numeral_spec(chord: Seq<char>, key: Seq<char>) -> Result<
    Seq<char>,
    Failure,
> {
    match get_chord_numeral_spec(chord, key) {
        Err(e) => Err(e),
        Ok(numeral) => Ok(display_form(numeral, chord)),
    }
}

/// The Roman numeral under which a chord is shown in a key.
pub fn get_display_numeral(chord: &str, key: &str) -> (r: MusicResult<String>)
    ensures
        outcome(r) == get_display_numeral_spec(chord@, key@),
{
    let numeral = get_chord_numeral(chord, key)?;
    roman_numeral_for_display(numeral.as_str(), chord)
}

} // verus!
