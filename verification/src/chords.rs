//! Chord names: parsing into root, suffix and bass, transposition between
//! keys, and the diatonic chords of a key.

use crate::intervals::{letter_index, letter_to_index};
use crate::notes::{
    key_signature_type, key_type_of, lemma_preferred_name, note_index, note_index_spec,
    pitch_class, plain_note_name, preferred_name_in, preferred_note_name, KeyType,
};
use crate::roman::{
    get_display_numeral, get_display_numeral_spec, roman_numeral_to_chord,
    roman_numeral_to_chord_spec,
};
use crate::text::{
    chars_of, find, find_char, lemma_find, lemma_find_after, lemma_trimmed_same, push_text,
    slice, string_of, trim, trimmed,
};
use crate::types::{
    all_or_first_error, collected, lemma_collected_error, outcome, Chord, ChordModel,
    ChordNotation, ChordNotationModel, ChordValidationResult, Failure, MusicError, MusicResult,
    ValidationModel,
};
use vstd::prelude::*;
use vstd::string::*;

verus! {

/// Whether `c` is an ASCII capital letter.
pub open spec fn is_capital(c: char) -> bool {
    'A' <= c && c <= 'Z'
}

/// The number of characters that make up the root at the start of `main`:
/// the letter, and a `#` or `b` that follows it directly.
pub open spec fn root_len(main: Seq<char>) -> int {
    if main.len() > 1 && (main[1] == '#' || main[1] == 'b') {
        2
    } else {
        1
    }
}

/// What [`parse_chord`] returns.
///
/// The empty text is the empty chord. Otherwise the text is cut at its first
/// `/`: what follows, without surrounding white space, is the bass. What
/// stands before must begin with a capital letter; that letter and a `#` or
/// `b` directly behind it are the root, the rest is the suffix, unchanged.
pub open spec fn parse_chord_spec(chord: Seq<char>) -> Result<ChordModel, Failure> {
    if chord.len() == 0 {
        Ok(ChordModel { root: Seq::empty(), suffix: Seq::empty(), bass: None })
    } else {
        let cut = find(chord, '/');
        let main = chord.take(cut);
        let bass = if cut < chord.len() {
            Some(trimmed(chord.skip(cut + 1)))
        } else {
            None
        };
        if main.len() == 0 {
            Err(Failure::InvalidChord(chord))
        } else if !is_capital(main[0]) {
            Err(Failure::InvalidChord("Root must be uppercase: "@ + chord))
        } else {
            Ok(
                ChordModel {
                    root: main.take(root_len(main)),
                    suffix: main.skip(root_len(main)),
                    bass,
                },
            )
        }
    }
}

/// Splits a chord name into root, suffix and optional bass note.
///
/// `"Dm7"` has root `D` and suffix `m7`; `"C/E"` has root `C`, an empty
/// suffix and bass `E`. The suffix is not validated.
pub fn parse_chord(chord: &str) -> (r: MusicResult<Chord>)
    ensures
        outcome(r) == parse_chord_spec(chord@),
        r is Ok ==> (r->Ok_0.root@.len() == 0 <==> chord@.len() == 0),
{
    let v = chars_of(chord);
    if v.len() == 0 {
        return Ok(Chord { root: String::new(), suffix: String::new(), bass: None });
    }
    let cut = find_char(&v, '/');
    let main = slice(&v, 0, cut);
    let bass: Option<String> = if cut < v.len() {
        let rest = slice(&v, cut + 1, v.len());
        Some(string_of(&trim(&rest)))
    } else {
        None
    };
    if main.len() == 0 {
        return Err(MusicError::InvalidChord(String::from_str(chord)));
    }
    if !(main[0] >= 'A' && main[0] <= 'Z') {
        return Err(
            MusicError::InvalidChord(String::from_str("Root must be uppercase: ").concat(chord)),
        );
    }
    let split: usize = if main.len() > 1 && (main[1] == '#' || main[1] == 'b') {
        2
    } else {
        1
    };
    let root = string_of(&slice(&main, 0, split));
    let suffix = string_of(&slice(&main, split, main.len()));
    Ok(Chord { root, suffix, bass })
}

/// The distance in semitones, `0..=11`, from pitch class `from` up to `to`.
pub open spec fn interval_up(from: int, to: int) -> int {
    (to - from) % 12
}

/// What [`transpose_chord`] returns.
///
/// The empty chord stays empty. Otherwise both keys must name a note, the
/// chord must parse, and its root and bass must name notes; the first of
/// these to fail is the error. The root, and the bass if there is one, move
/// up by the interval from `from_key` to `to_key` and are spelled for
/// `to_key`; the suffix is kept as it is.
#[verifier::opaque]
pub open spec fn transpose_chord_spec(
    chord: Seq<char>,
    from_key: Seq<char>,
    to_key: Seq<char>,
    use_flats: bool,
) -> Result<Seq<char>, Failure> {
    if chord.len() == 0 {
        Ok(chord)
    } else {
        match note_index_spec(from_key) {
            Err(e) => Err(e),
            Ok(from) => match note_index_spec(to_key) {
                Err(e) => Err(e),
                Ok(to) => match parse_chord_spec(chord) {
                    Err(e) => Err(e),
                    Ok(parsed) => match note_index_spec(parsed.root) {
                        Err(e) => Err(e),
                        Ok(root) => {
                            let shift = interval_up(from as int, to as int);
                            let new_root = preferred_note_name(
                                (root + shift) % 12,
                                to_key,
                                use_flats,
                            );
                            match parsed.bass {
                                None => Ok(new_root + parsed.suffix),
                                Some(bass_note) => match note_index_spec(bass_note) {
                                    Err(e) => Err(e),
                                    Ok(bass) => Ok(
                                        new_root + parsed.suffix + "/"@ + preferred_note_name(
                                            (bass + shift) % 12,
                                            to_key,
                                            use_flats,
                                        ),
                                    ),
                                },
                            }
                        },
                    },
                },
            },
        }
    }
}

/// The interval `0..=11` from pitch class `from` up to pitch class `to`.
pub fn semitones_up(from: u8, to: u8) -> (r: u8)
    requires
        from < 12,
        to < 12,
    ensures
        r == interval_up(from as int, to as int),
        r < 12,
{
    (to + 12 - from) % 12
}

/// Moves a chord from one key to another and spells it for the new key.
pub fn transpose_chord(chord: &str, from_key: &str, to_key: &str, use_flats: bool) -> (r:
    MusicResult<String>)
    ensures
        outcome(r) == transpose_chord_spec(chord@, from_key@, to_key@, use_flats),
{
    reveal(transpose_chord_spec);
    if chord.unicode_len() == 0 {
        return Ok(String::from_str(chord));
    }
    let from = note_index(from_key)?;
    let to = note_index(to_key)?;
    let shift = semitones_up(from, to);
    let parsed = parse_chord(chord)?;
    let root = note_index(parsed.root.as_str())?;
    let key = chars_of(to_key);
    let new_root = preferred_name_in((root + shift) % 12, &key, use_flats);
    let head = String::from_str(new_root).concat(parsed.suffix.as_str());
    match parsed.bass {
        None => Ok(head),
        Some(bass_note) => {
            let bass = note_index(bass_note.as_str())?;
            let new_bass = preferred_name_in((bass + shift) % 12, &key, use_flats);
            Ok(head.concat("/").concat(new_bass))
        },
    }
}

/// What [`normalize_chord_to_key`] returns: the chord with its root spelled
/// for `key` (with flats in a flat key, with sharps in any other), and all
/// that follows the root unchanged.
pub open spec fn normalize_chord_to_key_spec(chord: Seq<char>, key: Seq<char>) -> Result<
    Seq<char>,
    Failure,
> {
    match parse_chord_spec(chord) {
        Err(e) => Err(e),
        Ok(parsed) => if parsed.root.len() == 0 {
            Ok(chord)
        } else {
            match note_index_spec(parsed.root) {
                Err(e) => Err(e),
                Ok(root) => Ok(
                    preferred_note_name(
                        root as int,
                        key,
                        key_signature_type(key) == KeyType::Flat,
                    ) + chord.skip(parsed.root.len() as int),
                ),
            }
        },
    }
}

/// Spells the root of a chord the way `key` writes it; suffix and bass stay
/// as they are. `"D#m"` in `Eb` becomes `"Ebm"`.
pub fn normalize_chord_to_key(chord: &str, key: &str) -> (r: MusicResult<String>)
    ensures
        outcome(r) == normalize_chord_to_key_spec(chord@, key@),
{
    let parsed = parse_chord(chord)?;
    let root_chars = chars_of(parsed.root.as_str());
    if root_chars.len() == 0 {
        return Ok(String::from_str(chord));
    }
    let root = note_index(parsed.root.as_str())?;
    let k = chars_of(key);
    let use_flats = key_type_of(&k) == KeyType::Flat;
    let name = preferred_name_in(root, &k, use_flats);
    let v = chars_of(chord);
    proof {
        lemma_find(chord@, '/');
    }
    let rest = string_of(&slice(&v, root_chars.len(), v.len()));
    Ok(String::from_str(name).concat(rest.as_str()))
}

/// The `i`-th diatonic chord of C major: I, ii, iii, IV, V, vi, vii.
pub open spec fn major_template(i: int) -> Seq<char> {
    if i == 0 {
        "C"@
    } else if i == 1 {
        "Dm"@
    } else if i == 2 {
        "Em"@
    } else if i == 3 {
        "F"@
    } else if i == 4 {
        "G"@
    } else if i == 5 {
        "Am"@
    } else {
        "Bm"@
    }
}

/// The `i`-th diatonic chord of C minor: i, ii°, III, iv, v, VI, VII.
pub open spec fn minor_template(i: int) -> Seq<char> {
    if i == 0 {
        "Cm"@
    } else if i == 1 {
        "Ddim"@
    } else if i == 2 {
        "Eb"@
    } else if i == 3 {
        "Fm"@
    } else if i == 4 {
        "Gm"@
    } else if i == 5 {
        "Ab"@
    } else {
        "Bb"@
    }
}

/// The `i`-th diatonic chord of C major or C minor.
pub open spec fn template(minor: bool, i: int) -> Seq<char> {
    if minor {
        minor_template(i)
    } else {
        major_template(i)
    }
}

/// The seven diatonic chords of C major or minor, each transposed to `key`.
pub open spec fn transposed_templates(minor: bool, key: Seq<char>, use_flats: bool) -> Seq<
    Result<Seq<char>, Failure>,
> {
    Seq::new(7, |i: int| transpose_chord_spec(template(minor, i), "C"@, key, use_flats))
}

/// What [`get_diatonic_chords`] returns: the seven chords of the major key,
/// or the error of the first that cannot be transposed.
pub open spec fn diatonic_chords_spec(key: Seq<char>, use_flats: bool) -> Result<
    Seq<Seq<char>>,
    Failure,
> {
    all_or_first_error(transposed_templates(false, key, use_flats))
}

/// What [`get_minor_diatonic_chords`] returns: the seven chords of the minor
/// key, or the error of the first that cannot be transposed.
pub open spec fn minor_diatonic_chords_spec(key: Seq<char>, use_flats: bool) -> Result<
    Seq<Seq<char>>,
    Failure,
> {
    all_or_first_error(transposed_templates(true, key, use_flats))
}

/// The `i`-th diatonic chord of C major or C minor.
pub fn template_of(minor: bool, i: usize) -> (r: &'static str)
    requires
        i < 7,
    ensures
        r@ == template(minor, i as int),
{
    if minor {
        if i == 0 {
            "Cm"
        } else if i == 1 {
            "Ddim"
        } else if i == 2 {
            "Eb"
        } else if i == 3 {
            "Fm"
        } else if i == 4 {
            "Gm"
        } else if i == 5 {
            "Ab"
        } else {
            "Bb"
        }
    } else {
        if i == 0 {
            "C"
        } else if i == 1 {
            "Dm"
        } else if i == 2 {
            "Em"
        } else if i == 3 {
            "F"
        } else if i == 4 {
            "G"
        } else if i == 5 {
            "Am"
        } else {
            "Bm"
        }
    }
}

/// The seven diatonic chords of C major or minor, transposed to `key`.
pub fn diatonic_in(minor: bool, key: &str, use_flats: bool) -> (r: MusicResult<Vec<String>>)
    ensures
        outcome(r) == all_or_first_error(transposed_templates(minor, key@, use_flats)),
{
    let ghost items = transposed_templates(minor, key@, use_flats);
    let mut out: Vec<String> = Vec::new();
    assert(out.deep_view() =~= Seq::<Seq<char>>::empty());
    let mut i: usize = 0;
    while i < 7
        invariant
            i <= 7,
            items == transposed_templates(minor, key@, use_flats),
            collected(items, i as int) == Ok::<Seq<Seq<char>>, Failure>(out.deep_view()),
        decreases 7 - i,
    {
        match transpose_chord(template_of(minor, i), "C", key, use_flats) {
            Ok(c) => {
                push_text(&mut out, c);
            },
            Err(e) => {
                proof {
                    lemma_collected_error(items, i + 1, 7);
                }
                return Err(e);
            },
        }
        i += 1;
    }
    Ok(out)
}

/// The diatonic chords of a major key: I, ii, iii, IV, V, vi, vii.
pub fn get_diatonic_chords(key: &str, use_flats: bool) -> (r: MusicResult<Vec<String>>)
    ensures
        outcome(r) == diatonic_chords_spec(key@, use_flats),
{
    diatonic_in(false, key, use_flats)
}

/// The diatonic chords of a minor key: i, ii°, III, iv, v, VI, VII.
pub fn get_minor_diatonic_chords(key: &str, use_flats: bool) -> (r: MusicResult<Vec<String>>)
    ensures
        outcome(r) == minor_diatonic_chords_spec(key@, use_flats),
{
    diatonic_in(true, key, use_flats)
}

/// What [`validate_chord_input`] finds.
///
/// White space around the text is dropped; nothing is left of the empty
/// text, which is invalid without a message. Text that begins with a
/// letter `A` to `G` and parses as a chord with a root is a valid chord,
/// given back as it is. Any other text is tried as a Roman numeral in the
/// key: if it stands for a chord, that chord is given back. Otherwise the
/// text is invalid, with a message that holds it.
pub open spec fn validate_chord_input_spec(input: Seq<char>, key: Seq<char>, use_flats: bool) -> ValidationModel {
    let text = trimmed(input);
    if text.len() == 0 {
        ValidationModel {
            valid: false,
            chord: None,
            normalized_chord: None,
            message: None,
            input_type: None,
        }
    } else if letter_index(text[0]) is Some && parse_chord_spec(text) is Ok && parse_chord_spec(
        text,
    )->Ok_0.root.len() > 0 {
        ValidationModel {
            valid: true,
            chord: Some(text),
            normalized_chord: Some(text),
            message: None,
            input_type: Some("chord"@),
        }
    } else {
        match roman_numeral_to_chord_spec(text, key, use_flats) {
            Ok(chord) => ValidationModel {
                valid: true,
                chord: Some(chord),
                normalized_chord: Some(chord),
                message: None,
                input_type: Some("numeral"@),
            },
            Err(_) => ValidationModel {
                valid: false,
                chord: None,
                normalized_chord: None,
                message: Some("Invalid chord or numeral: "@ + text),
                input_type: None,
            },
        }
    }
}

/// Whether `text`, which is not empty, reads as a chord name: it begins
/// with a letter `A` to `G` and parses with a root.
pub fn reads_as_chord(text: &Vec<char>) -> (r: bool)
    requires
        text@.len() > 0,
    ensures
        r == (letter_index(text@[0]) is Some && parse_chord_spec(text@) is Ok && parse_chord_spec(
            text@,
        )->Ok_0.root.len() > 0),
{
    if letter_to_index(text[0]).is_none() {
        return false;
    }
    match parse_chord(string_of(text).as_str()) {
        Ok(parsed) => parsed.root.as_str().unicode_len() > 0,
        Err(_) => false,
    }
}

/// Checks free text that should name a chord, by name or by Roman numeral
/// in `key`, and says which of the two it is. This never fails.
pub fn validate_chord_input(input: &str, key: &str, use_flats: bool) -> (r: MusicResult<
    ChordValidationResult,
>)
    ensures
        r is Ok,
        r->Ok_0.deep_view() == validate_chord_input_spec(input@, key@, use_flats),
{
    let text = trim(&chars_of(input));
    if text.len() == 0 {
        return Ok(
            ChordValidationResult {
                valid: false,
                chord: None,
                normalized_chord: None,
                message: None,
                input_type: None,
            },
        );
    }
    let shown = string_of(&text);
    if reads_as_chord(&text) {
        return Ok(
            ChordValidationResult {
                valid: true,
                chord: Some(shown.clone()),
                normalized_chord: Some(shown),
                message: None,
                input_type: Some(String::from_str("chord")),
            },
        );
    }
    match roman_numeral_to_chord(shown.as_str(), key, use_flats) {
        Ok(chord) => Ok(
            ChordValidationResult {
                valid: true,
                chord: Some(chord.clone()),
                normalized_chord: Some(chord),
                message: None,
                input_type: Some(String::from_str("numeral")),
            },
        ),
        Err(_) => Ok(
            ChordValidationResult {
                valid: false,
                chord: None,
                normalized_chord: None,
                message: Some(
                    String::from_str("Invalid chord or numeral: ").concat(shown.as_str()),
                ),
                input_type: None,
            },
        ),
    }
}

/// The `i`-th of the six numerals of common chords from outside the key.
pub open spec fn borrowed_numeral(i: int) -> Seq<char> {
    if i == 0 {
        "bVII"@
    } else if i == 1 {
        "bIII"@
    } else if i == 2 {
        "bVI"@
    } else if i == 3 {
        "ii7"@
    } else if i == 4 {
        "vi7"@
    } else {
        "iii7"@
    }
}

/// The chords that the first `n` of these numerals stand for in `key`, in
/// order; a numeral that stands for no chord is left out.
pub open spec fn borrowed_chords(key: Seq<char>, use_flats: bool, n: int) -> Seq<Seq<char>>
    decreases n,
{
    if n <= 0 {
        Seq::empty()
    } else {
        match roman_numeral_to_chord_spec(borrowed_numeral(n - 1), key, use_flats) {
            Ok(chord) => borrowed_chords(key, use_flats, n - 1).push(chord),
            Err(_) => borrowed_chords(key, use_flats, n - 1),
        }
    }
}

/// What [`get_initial_chords`] returns: six common chords from outside the
/// key, then the seven diatonic chords of the major key.
pub open spec fn initial_chords_spec(key: Seq<char>, use_flats: bool) -> Result<
    Seq<Seq<char>>,
    Failure,
> {
    match diatonic_chords_spec(key, use_flats) {
        Err(e) => Err(e),
        Ok(diatonic) => Ok(borrowed_chords(key, use_flats, 6) + diatonic),
    }
}

/// The `i`-th numeral of the common chords from outside the key.
pub fn borrowed_numeral_of(i: usize) -> (r: &'static str)
    requires
        i < 6,
    ensures
        r@ == borrowed_numeral(i as int),
{
    if i == 0 {
        "bVII"
    } else if i == 1 {
        "bIII"
    } else if i == 2 {
        "bVI"
    } else if i == 3 {
        "ii7"
    } else if i == 4 {
        "vi7"
    } else {
        "iii7"
    }
}

/// The chords to start from in a key: common chords from outside the key,
/// then the diatonic chords.
pub fn get_initial_chords(key: &str, use_flats: bool) -> (r: MusicResult<Vec<String>>)
    ensures
        outcome(r) == initial_chords_spec(key@, use_flats),
{
    let diatonic = get_diatonic_chords(key, use_flats)?;
    let mut initial: Vec<String> = Vec::new();
    assert(initial.deep_view() =~= Seq::<Seq<char>>::empty());
    let mut i: usize = 0;
    while i < 6
        invariant
            i <= 6,
            initial.deep_view() == borrowed_chords(key@, use_flats, i as int),
        decreases 6 - i,
    {
        match roman_numeral_to_chord(borrowed_numeral_of(i), key, use_flats) {
            Ok(chord) => {
                push_text(&mut initial, chord);
            },
            Err(_) => {},
        }
        i += 1;
    }
    let ghost borrowed = initial.deep_view();
    let mut k: usize = 0;
    while k < diatonic.len()
        invariant
            k <= diatonic.len(),
            initial.deep_view() == borrowed + diatonic.deep_view().take(k as int),
        decreases diatonic.len() - k,
    {
        push_text(&mut initial, diatonic[k].clone());
        k += 1;
        assert(initial.deep_view() =~= borrowed + diatonic.deep_view().take(k as int));
    }
    assert(diatonic.deep_view().take(diatonic.len() as int) =~= diatonic.deep_view());
    Ok(initial)
}

/// What [`prepare_chord_display`] returns: the chord as it is written, with
/// the numeral it is shown under.
pub open spec fn prepare_chord_display_spec(chord: Seq<char>, key: Seq<char>) -> Result<
    ChordNotationModel,
    Failure,
> {
    match get_display_numeral_spec(chord, key) {
        Err(e) => Err(e),
        Ok(numeral) => Ok(ChordNotationModel { chord, numeral }),
    }
}

/// Pairs a chord with the Roman numeral it is shown under in a key. The
/// chord keeps its spelling.
pub fn prepare_chord_display(chord: &str, key: &str) -> (r: MusicResult<ChordNotation>)
    ensures
        outcome(r) == prepare_chord_display_spec(chord@, key@),
{
    let numeral = get_display_numeral(chord, key)?;
    Ok(ChordNotation { chord: String::from_str(chord), numeral })
}

/// Whether a chord is spelled the way `key` spells it, so that transposing
/// can give it back letter for letter: it parses, its root is the name that
/// the key prefers for its pitch, and so is its bass, which follows the `/`
/// without white space.
pub open spec fn spelled_for_key(chord: Seq<char>, key: Seq<char>, use_flats: bool) -> bool {
    match parse_chord_spec(chord) {
        Err(_) => false,
        Ok(parsed) => {
            &&& pitch_class(parsed.root) is Some
            &&& parsed.root == preferred_note_name(pitch_class(parsed.root)->0, key, use_flats)
            &&& match parsed.bass {
                None => true,
                Some(bass) => {
                    &&& pitch_class(bass) is Some
                    &&& bass == preferred_note_name(pitch_class(bass)->0, key, use_flats)
                    &&& chord == parsed.root + parsed.suffix + "/"@ + bass
                },
            }
        },
    }
}

/// Whether a suffix stays apart from a root written in front of it: a
/// suffix that begins with `#` or `b` would be read as the accidental of a
/// root that has none.
pub open spec fn suffix_stays_apart(suffix: Seq<char>, root: Seq<char>) -> bool {
    !(root.len() == 1 && suffix.len() > 0 && (suffix[0] == '#' || suffix[0] == 'b'))
}

/// A chord made of a plain note name, a suffix without `/` that stays
/// apart from it, and perhaps `/` and a plain note name as bass, parses
/// into exactly these parts.
pub proof fn lemma_parse_assembled(root: Seq<char>, suffix: Seq<char>, bass: Option<Seq<char>>)
    requires
        plain_note_name(root),
        !suffix.contains('/'),
        suffix_stays_apart(suffix, root),
        bass is Some ==> plain_note_name(bass->0),
    ensures
        parse_chord_spec(
            match bass {
                Some(b) => root + suffix + "/"@ + b,
                None => root + suffix,
            },
        ) == Ok::<ChordModel, Failure>(ChordModel { root, suffix, bass }),
{
    reveal_strlit("/");
    let main = root + suffix;
    assert(!main.contains('/')) by {
        if main.contains('/') {
            let i = choose|i: int| 0 <= i < main.len() && main[i] == '/';
            if i < root.len() {
                assert(root[i] == '/');
            } else {
                assert(suffix[i - root.len()] == '/');
                assert(suffix.contains('/'));
            }
        }
    }
    assert(main.take(root_len(main)) =~= root);
    assert(main.skip(root_len(main)) =~= suffix);
    match bass {
        None => {
            lemma_find(main, '/');
            assert(main.take(main.len() as int) =~= main);
        },
        Some(b) => {
            let chord = main + "/"@ + b;
            assert(chord =~= main + ("/"@ + b));
            lemma_find_after(main, "/"@ + b, '/');
            assert(find("/"@ + b, '/') == 0);
            assert(chord.take(main.len() as int) =~= main);
            assert(chord.skip(main.len() as int + 1) =~= b);
            lemma_trimmed_same(b);
        },
    }
}

/// The chord name made of a root, a suffix and perhaps a bass.
pub open spec fn assembled(root: Seq<char>, suffix: Seq<char>, bass: Option<Seq<char>>) -> Seq<char> {
    match bass {
        Some(b) => root + suffix + "/"@ + b,
        None => root + suffix,
    }
}

/// The name that `key` prefers for the note `shift` semitones above the
/// note `name`.
pub open spec fn moved_name(name: Seq<char>, shift: int, key: Seq<char>, use_flats: bool) -> Seq<
    char,
> {
    preferred_note_name((pitch_class(name)->0 + shift) % 12, key, use_flats)
}

/// What transposing gives for a chord made of plain note names and a
/// suffix that stays apart from its root: root and bass moved and spelled
/// for the new key, around the same suffix.
pub proof fn lemma_transpose_assembled(
    root: Seq<char>,
    suffix: Seq<char>,
    bass: Option<Seq<char>>,
    from_key: Seq<char>,
    to_key: Seq<char>,
    use_flats: bool,
)
    requires
        note_index_spec(from_key) is Ok,
        note_index_spec(to_key) is Ok,
        plain_note_name(root),
        pitch_class(root) is Some,
        !suffix.contains('/'),
        suffix_stays_apart(suffix, root),
        bass is Some ==> plain_note_name(bass->0) && pitch_class(bass->0) is Some,
    ensures
        transpose_chord_spec(assembled(root, suffix, bass), from_key, to_key, use_flats) == Ok::<
            Seq<char>,
            Failure,
        >(
            assembled(
                moved_name(
                    root,
                    interval_up(
                        note_index_spec(from_key)->Ok_0 as int,
                        note_index_spec(to_key)->Ok_0 as int,
                    ),
                    to_key,
                    use_flats,
                ),
                suffix,
                match bass {
                    Some(b) => Some(
                        moved_name(
                            b,
                            interval_up(
                                note_index_spec(from_key)->Ok_0 as int,
                                note_index_spec(to_key)->Ok_0 as int,
                            ),
                            to_key,
                            use_flats,
                        ),
                    ),
                    None => None,
                },
            ),
        ),
{
    reveal(transpose_chord_spec);
    lemma_parse_assembled(root, suffix, bass);
    let chord = assembled(root, suffix, bass);
    assert(chord.len() > 0) by {
        assert(chord.len() >= root.len());
    }
}

/// A chord that parses is its root, then its suffix, up to its first `/`;
/// its suffix holds no `/` and stays apart from its root.
pub proof fn lemma_parsed_parts(chord: Seq<char>)
    requires
        chord.len() > 0,
        parse_chord_spec(chord) is Ok,
    ensures
        parse_chord_spec(chord)->Ok_0.root + parse_chord_spec(chord)->Ok_0.suffix == chord.take(
            find(chord, '/'),
        ),
        !parse_chord_spec(chord)->Ok_0.suffix.contains('/'),
        suffix_stays_apart(parse_chord_spec(chord)->Ok_0.suffix, parse_chord_spec(chord)->Ok_0.root),
        parse_chord_spec(chord)->Ok_0.bass is None ==> find(chord, '/') == chord.len(),
{
    let parsed = parse_chord_spec(chord)->Ok_0;
    lemma_find(chord, '/');
    let main = chord.take(find(chord, '/'));
    assert(parsed.root + parsed.suffix =~= main);
    if parsed.suffix.contains('/') {
        let i = choose|i: int| 0 <= i < parsed.suffix.len() && parsed.suffix[i] == '/';
        assert(main[i + root_len(main)] == '/');
    }
    if parsed.suffix.len() > 0 {
        assert(parsed.suffix[0] == main[root_len(main)]);
    }
}

/// A note that a key spells its own way comes back, letter for letter,
/// when it is moved up to another key and down again by intervals that add
/// up to whole octaves.
pub proof fn lemma_name_round_trip(
    name: Seq<char>,
    from_key: Seq<char>,
    to_key: Seq<char>,
    use_flats: bool,
    up: int,
    down: int,
)
    requires
        pitch_class(name) is Some,
        name == preferred_note_name(pitch_class(name)->0, from_key, use_flats),
        0 <= up < 12,
        0 <= down < 12,
        (up + down) % 12 == 0,
    ensures
        plain_note_name(name),
        plain_note_name(moved_name(name, up, to_key, use_flats)),
        pitch_class(moved_name(name, up, to_key, use_flats)) is Some,
        moved_name(moved_name(name, up, to_key, use_flats), down, from_key, use_flats) == name,
{
    let pitch = pitch_class(name)->0;
    assert(0 <= pitch < 12);
    lemma_up_and_down(pitch, up, down);
    lemma_preferred_name(pitch, from_key, use_flats);
    lemma_preferred_name((pitch + up) % 12, to_key, use_flats);
}

/// A pitch class moved up and down by intervals that add up to whole
/// octaves is the pitch class again.
pub proof fn lemma_up_and_down(pitch: int, up: int, down: int)
    requires
        0 <= pitch < 12,
        0 <= up < 12,
        0 <= down < 12,
        (up + down) % 12 == 0,
    ensures
        0 <= (pitch + up) % 12 < 12,
        ((pitch + up) % 12) % 12 == (pitch + up) % 12,
        (((pitch + up) % 12) + down) % 12 == pitch,
        pitch % 12 == pitch,
{
    let moved = (pitch + up) % 12;
    assert(moved == pitch + up || moved == pitch + up - 12);
    assert(up + down == 0 || up + down == 12);
}

/// The interval from one pitch class up to another and the interval back
/// add up to nothing or to an octave.
pub proof fn lemma_intervals_cancel(from: int, to: int)
    requires
        0 <= from < 12,
        0 <= to < 12,
    ensures
        0 <= interval_up(from, to) < 12,
        0 <= interval_up(to, from) < 12,
        (interval_up(from, to) + interval_up(to, from)) % 12 == 0,
{
    let up = interval_up(from, to);
    let down = interval_up(to, from);
    assert(up == to - from || up == to - from + 12);
    assert(down == from - to || down == from - to + 12);
}

/// The round trip for a chord given by its parts.
pub proof fn lemma_round_trip_assembled(
    root: Seq<char>,
    suffix: Seq<char>,
    bass: Option<Seq<char>>,
    from_key: Seq<char>,
    to_key: Seq<char>,
    use_flats: bool,
)
    requires
        note_index_spec(from_key) is Ok,
        note_index_spec(to_key) is Ok,
        pitch_class(root) is Some,
        root == preferred_note_name(pitch_class(root)->0, from_key, use_flats),
        bass is Some ==> pitch_class(bass->0) is Some && bass->0 == preferred_note_name(
            pitch_class(bass->0)->0,
            from_key,
            use_flats,
        ),
        !suffix.contains('/'),
        suffix_stays_apart(suffix, root),
        suffix_stays_apart(
            suffix,
            moved_name(
                root,
                interval_up(
                    note_index_spec(from_key)->Ok_0 as int,
                    note_index_spec(to_key)->Ok_0 as int,
                ),
                to_key,
                use_flats,
            ),
        ),
    ensures
        transpose_chord_spec(assembled(root, suffix, bass), from_key, to_key, use_flats) is Ok,
        transpose_chord_spec(
            transpose_chord_spec(assembled(root, suffix, bass), from_key, to_key, use_flats)->Ok_0,
            to_key,
            from_key,
            use_flats,
        ) == Ok::<Seq<char>, Failure>(assembled(root, suffix, bass)),
{
    let from = note_index_spec(from_key)->Ok_0 as int;
    let to = note_index_spec(to_key)->Ok_0 as int;
    let up = interval_up(from, to);
    let down = interval_up(to, from);
    lemma_intervals_cancel(from, to);
    lemma_name_round_trip(root, from_key, to_key, use_flats, up, down);
    let new_root = moved_name(root, up, to_key, use_flats);
    let new_bass: Option<Seq<char>> = match bass {
        Some(b) => Some(moved_name(b, up, to_key, use_flats)),
        None => None,
    };
    if bass is Some {
        lemma_name_round_trip(bass->0, from_key, to_key, use_flats, up, down);
    }
    lemma_transpose_assembled(root, suffix, bass, from_key, to_key, use_flats);
    lemma_transpose_assembled(new_root, suffix, new_bass, to_key, from_key, use_flats);
}

/// Transposing a chord to another key and back gives the chord again,
/// letter for letter, for every chord that is spelled the way its key
/// spells it and whose suffix stays apart from the root it gets in the
/// other key.
pub proof fn lemma_transpose_round_trip(
    chord: Seq<char>,
    from_key: Seq<char>,
    to_key: Seq<char>,
    use_flats: bool,
)
    requires
        note_index_spec(from_key) is Ok,
        note_index_spec(to_key) is Ok,
        chord.len() > 0 ==> spelled_for_key(chord, from_key, use_flats) && suffix_stays_apart(
            parse_chord_spec(chord)->Ok_0.suffix,
            moved_name(
                parse_chord_spec(chord)->Ok_0.root,
                interval_up(
                    note_index_spec(from_key)->Ok_0 as int,
                    note_index_spec(to_key)->Ok_0 as int,
                ),
                to_key,
                use_flats,
            ),
        ),
    ensures
        transpose_chord_spec(chord, from_key, to_key, use_flats) is Ok,
        transpose_chord_spec(
            transpose_chord_spec(chord, from_key, to_key, use_flats)->Ok_0,
            to_key,
            from_key,
            use_flats,
        ) == Ok::<Seq<char>, Failure>(chord),
{
    if chord.len() == 0 {
        reveal(transpose_chord_spec);
    } else {
        let parsed = parse_chord_spec(chord)->Ok_0;
        lemma_parsed_parts(chord);
        assert(assembled(parsed.root, parsed.suffix, parsed.bass) == chord) by {
            if parsed.bass is None {
                assert(chord.take(chord.len() as int) =~= chord);
            }
        }
        lemma_round_trip_assembled(
            parsed.root,
            parsed.suffix,
            parsed.bass,
            from_key,
            to_key,
            use_flats,
        );
    }
}

} // verus!
