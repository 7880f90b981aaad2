//! The key-agnostic encoding of chord progressions: each chord as a quality,
//! each step between two chords as a distance folded into `0..=6`.
//!
//! The progression C, Am, F is written `M_3_m_4_M`. The bass of a slash
//! chord is part of the quality, as its distance above the root: C/E has
//! the quality `M/4`.

use crate::chords::{parse_chord, parse_chord_spec};
use crate::notes::{
    get_preferred_note_name, note_index, note_index_spec, pitch_class, pitch_class_of,
    preferred_note_name,
};
use crate::text::{
    append, begins_with, chars_of, concat, decimal, find, find_char, find_from, is_text,
    lemma_find_shifted, lowered, parse_u8, parsed_u8, push_decimal, remove_chars, replace_all,
    replaced, slice, starts_with, string_of, to_lower, without,
};
use crate::types::{
    all_or_first_error, collected, lemma_collected_error, outcome, Failure, MusicError,
    MusicResult,
};
use vstd::prelude::*;
use vstd::string::*;

verus! {

/// A distance in semitones, of either sign, folded into `0..=6`: the shorter
/// way round the circle of twelve, whatever the direction.
pub open spec fn normalized_interval(semitones: int) -> int {
    let m = semitones % 12;
    if m <= 6 {
        m
    } else {
        12 - m
    }
}

/// Folds a distance in semitones into `0..=6`: seven semitones up are five
/// down, so 7 gives 5, and -3 gives 3.
pub fn normalize_interval(semitones: i32) -> (r: u8)
    ensures
        r == normalized_interval(semitones as int),
        r <= 6,
{
    let t: i32 = semitones % 12;
    let m: i32 = if t < 0 {
        t + 12
    } else {
        t
    };
    if m <= 6 {
        m as u8
    } else {
        (12 - m) as u8
    }
}

/// Whether `s` is one of the canonical chord suffixes.
pub open spec fn valid_suffix(s: Seq<char>) -> bool {
    s == ""@ || s == "m"@ || s == "dim"@ || s == "dim7"@ || s == "aug"@ || s == "aug7"@
        || s == "7"@ || s == "maj7"@ || s == "m7"@ || s == "mmaj7"@ || s == "9"@
        || s == "maj9"@ || s == "m9"@ || s == "add9"@ || s == "madd9"@ || s == "11"@
        || s == "maj11"@ || s == "m11"@ || s == "add11"@ || s == "madd11"@ || s == "13"@
        || s == "maj13"@ || s == "m13"@ || s == "add13"@ || s == "sus2"@ || s == "sus4"@
        || s == "7sus2"@ || s == "7sus4"@ || s == "9sus4"@ || s == "#5"@ || s == "b5"@
        || s == "m#5"@ || s == "m7#5"@ || s == "7#5"@ || s == "7b5"@ || s == "7#9"@
        || s == "7b9"@ || s == "7#11"@ || s == "7b13"@ || s == "7alt"@ || s == "6"@
        || s == "m6"@ || s == "6/9"@ || s == "6sus2"@ || s == "6sus4"@ || s == "6add9"@
        || s == "5"@ || s == "add2"@ || s == "add4"@ || s == "add6"@ || s == "7no5"@
}

/// Whether `suffix` is one of the canonical chord suffixes.
pub fn is_valid_suffix(suffix: &str) -> (r: bool)
    ensures
        r == valid_suffix(suffix@),
{
    let v = chars_of(suffix);
    is_text(&v, "") || is_text(&v, "m") || is_text(&v, "dim") || is_text(&v, "dim7")
        || is_text(&v, "aug") || is_text(&v, "aug7") || is_text(&v, "7") || is_text(&v, "maj7")
        || is_text(&v, "m7") || is_text(&v, "mmaj7") || is_text(&v, "9") || is_text(&v, "maj9")
        || is_text(&v, "m9") || is_text(&v, "add9") || is_text(&v, "madd9")
        || is_text(&v, "11") || is_text(&v, "maj11") || is_text(&v, "m11")
        || is_text(&v, "add11") || is_text(&v, "madd11") || is_text(&v, "13")
        || is_text(&v, "maj13") || is_text(&v, "m13") || is_text(&v, "add13")
        || is_text(&v, "sus2") || is_text(&v, "sus4") || is_text(&v, "7sus2")
        || is_text(&v, "7sus4") || is_text(&v, "9sus4") || is_text(&v, "#5")
        || is_text(&v, "b5") || is_text(&v, "m#5") || is_text(&v, "m7#5") || is_text(&v, "7#5")
        || is_text(&v, "7b5") || is_text(&v, "7#9") || is_text(&v, "7b9")
        || is_text(&v, "7#11") || is_text(&v, "7b13") || is_text(&v, "7alt")
        || is_text(&v, "6") || is_text(&v, "m6") || is_text(&v, "6/9") || is_text(&v, "6sus2")
        || is_text(&v, "6sus4") || is_text(&v, "6add9") || is_text(&v, "5")
        || is_text(&v, "add2") || is_text(&v, "add4") || is_text(&v, "add6")
        || is_text(&v, "7no5")
}

/// The canonical suffix that a lower-case spelling stands for, where the
/// spelling is a known variant: a typing slip, a reversed `sus`, a bare
/// number, `o` for diminished, `mi` or `min` for minor.
pub open spec fn suffix_alias(lower: Seq<char>) -> Option<Seq<char>> {
    if lower == "dimm"@ {
        Some("dim"@)
    } else if lower == "aug5"@ {
        Some("aug"@)
    } else if lower == "7m"@ {
        Some("maj7"@)
    } else if lower == "sus"@ {
        Some("sus4"@)
    } else if lower == "7sus"@ {
        Some("7sus4"@)
    } else if lower == "9sus"@ {
        Some("9sus4"@)
    } else if lower == "2"@ {
        Some("sus2"@)
    } else if lower == "4"@ {
        Some("sus4"@)
    } else if lower == "m7-5"@ {
        Some("m7b5"@)
    } else if lower == "m7b5"@ {
        Some("m7b5"@)
    } else if lower == "o"@ {
        Some("dim"@)
    } else if lower == "o7"@ {
        Some("dim7"@)
    } else if lower == "om"@ {
        Some("dim"@)
    } else if lower == "mi"@ {
        Some("m"@)
    } else if lower == "sus7"@ {
        Some("7sus4"@)
    } else if lower == "sus9"@ {
        Some("9sus4"@)
    } else if lower == "ma7"@ {
        Some("maj7"@)
    } else if lower == "mm7"@ {
        Some("mmaj7"@)
    } else if lower == "mmaj7"@ {
        Some("mmaj7"@)
    } else if lower == "maug7"@ {
        Some("m7#5"@)
    } else if lower == "maug5"@ {
        Some("m#5"@)
    } else if lower == "maug"@ {
        Some("m#5"@)
    } else if lower == "min"@ {
        Some("m"@)
    } else if lower == "min7"@ {
        Some("m7"@)
    } else {
        None
    }
}

/// The canonical suffix of a known lower-case variant.
pub fn suffix_alias_of(lower: &Vec<char>) -> (r: Option<&'static str>)
    ensures
        match r {
            Some(s) => suffix_alias(lower@) == Some(s@),
            None => suffix_alias(lower@) is None,
        },
{
    if is_text(lower, "dimm") {
        Some("dim")
    } else if is_text(lower, "aug5") {
        Some("aug")
    } else if is_text(lower, "7m") {
        Some("maj7")
    } else if is_text(lower, "sus") {
        Some("sus4")
    } else if is_text(lower, "7sus") {
        Some("7sus4")
    } else if is_text(lower, "9sus") {
        Some("9sus4")
    } else if is_text(lower, "2") {
        Some("sus2")
    } else if is_text(lower, "4") {
        Some("sus4")
    } else if is_text(lower, "m7-5") {
        Some("m7b5")
    } else if is_text(lower, "m7b5") {
        Some("m7b5")
    } else if is_text(lower, "o") {
        Some("dim")
    } else if is_text(lower, "o7") {
        Some("dim7")
    } else if is_text(lower, "om") {
        Some("dim")
    } else if is_text(lower, "mi") {
        Some("m")
    } else if is_text(lower, "sus7") {
        Some("7sus4")
    } else if is_text(lower, "sus9") {
        Some("9sus4")
    } else if is_text(lower, "ma7") {
        Some("maj7")
    } else if is_text(lower, "mm7") {
        Some("mmaj7")
    } else if is_text(lower, "mmaj7") {
        Some("mmaj7")
    } else if is_text(lower, "maug7") {
        Some("m7#5")
    } else if is_text(lower, "maug5") {
        Some("m#5")
    } else if is_text(lower, "maug") {
        Some("m#5")
    } else if is_text(lower, "min") {
        Some("m")
    } else if is_text(lower, "min7") {
        Some("m7")
    } else {
        None
    }
}

/// `s` with one of the prefixes `sus`, `dim`, `aug`, `maj`, `add` put in
/// lower case, where `lower`, the lower-case form of `s`, begins with it;
/// otherwise `s`. What follows the prefix keeps its case.
pub open spec fn with_lower_prefix(s: Seq<char>, lower: Seq<char>) -> Seq<char> {
    if starts_with(lower, "sus"@) {
        "sus"@ + s.skip("sus"@.len() as int)
    } else if starts_with(lower, "dim"@) {
        "dim"@ + s.skip("dim"@.len() as int)
    } else if starts_with(lower, "aug"@) {
        "aug"@ + s.skip("aug"@.len() as int)
    } else if starts_with(lower, "maj"@) {
        "maj"@ + s.skip("maj"@.len() as int)
    } else if starts_with(lower, "add"@) {
        "add"@ + s.skip("add"@.len() as int)
    } else {
        s
    }
}

/// Puts a known prefix of a suffix in lower case: `SUS2` becomes `sus2`.
/// `lower` is the lower-case form of `s`.
pub fn normalize_suffix_case(s: &str, lower: &str) -> (r: String)
    requires
        lower@ == lowered(s@),
    ensures
        r@ == with_lower_prefix(s@, lower@),
{
    let sv = chars_of(s);
    let lv = chars_of(lower);
    string_of(&lower_prefix(&sv, &lv))
}

/// `s` with a known prefix in lower case; `lower` is as long as `s`.
pub fn lower_prefix(s: &Vec<char>, lower: &Vec<char>) -> (r: Vec<char>)
    requires
        lower@.len() == s@.len(),
    ensures
        r@ == with_lower_prefix(s@, lower@),
{
    let prefix: &'static str = if begins_with(lower, "sus") {
        "sus"
    } else if begins_with(lower, "dim") {
        "dim"
    } else if begins_with(lower, "aug") {
        "aug"
    } else if begins_with(lower, "maj") {
        "maj"
    } else if begins_with(lower, "add") {
        "add"
    } else {
        return slice(s, 0, s.len());
    };
    let p = chars_of(prefix);
    let rest = slice(s, p.len(), s.len());
    concat(&p, &rest)
}

/// What [`normalize_suffix`] returns.
///
/// Parentheses are dropped; `-5` and `-9` become `b5` and `b9`. If the
/// lower-case form of the result is a known variant, its canonical suffix
/// is the answer. Otherwise a prefix `sus`, `dim`, `aug`, `maj` or `add` is
/// put in lower case and the rest is left as it is.
pub open spec fn normalize_suffix_spec(suffix: Seq<char>) -> Seq<char> {
    let bare = without(suffix, "()"@);
    let s = replaced(replaced(bare, "-5"@, "b5"@), "-9"@, "b9"@);
    let lower = lowered(s);
    match suffix_alias(lower) {
        Some(canonical) => canonical,
        None => with_lower_prefix(s, lower),
    }
}

/// Brings a chord suffix to its standard form: `7M` to `maj7`, `m(7)` to
/// `m7`, `SUS2` to `sus2`.
pub fn normalize_suffix(suffix: &str) -> (r: String)
    ensures
        r@ == normalize_suffix_spec(suffix@),
{
    let v = chars_of(suffix);
    let bare = remove_chars(&v, "()");
    let s = replace_all(&replace_all(&bare, "-5", "b5"), "-9", "b9");
    let lower = to_lower(&s);
    match suffix_alias_of(&lower) {
        Some(canonical) => String::from_str(canonical),
        None => string_of(&lower_prefix(&s, &lower)),
    }
}

/// The quality that a chord suffix is encoded as: the suffix in standard
/// form, which unless empty must be a canonical suffix; `M` for the empty
/// suffix.
pub open spec fn quality_of_suffix(suffix: Seq<char>) -> Result<Seq<char>, Failure> {
    let normalized = normalize_suffix_spec(suffix);
    if normalized.len() == 0 {
        Ok("M"@)
    } else if valid_suffix(normalized) {
        Ok(normalized)
    } else {
        Err(Failure::ParseError("Invalid chord suffix: "@ + normalized))
    }
}

/// The quality that a chord suffix is encoded as.
pub fn suffix_quality(suffix: &str) -> (r: MusicResult<String>)
    ensures
        outcome(r) == quality_of_suffix(suffix@),
{
    let normalized = normalize_suffix(suffix);
    if normalized.as_str().unicode_len() == 0 {
        Ok(String::from_str("M"))
    } else if is_valid_suffix(normalized.as_str()) {
        Ok(normalized)
    } else {
        Err(
            MusicError::ParseError(
                String::from_str("Invalid chord suffix: ").concat(normalized.as_str()),
            ),
        )
    }
}

/// The distance `0..=11` of a bass note above the pitch class `root`, never
/// folded; an error when the bass names no note.
pub open spec fn bass_distance(root: int, bass: Option<Seq<char>>) -> Result<Option<u8>, Failure> {
    match bass {
        None => Ok(None),
        Some(note) => match pitch_class(note) {
            None => Err(Failure::ParseError("Invalid bass note: "@ + note)),
            Some(pitch) => Ok(Some(((pitch - root) % 12) as u8)),
        },
    }
}

/// The distance of a bass note above the pitch class `root`.
pub fn bass_distance_of(root: u8, bass: &Option<String>) -> (r: MusicResult<Option<u8>>)
    requires
        root < 12,
    ensures
        outcome(r) == bass_distance(root as int, bass.deep_view()),
{
    match bass {
        None => Ok(None),
        Some(note) => {
            let b = chars_of(note.as_str());
            match pitch_class_of(&b) {
                Some(pitch) => Ok(Some((pitch + 12 - root) % 12)),
                None => Err(
                    MusicError::ParseError(
                        String::from_str("Invalid bass note: ").concat(note.as_str()),
                    ),
                ),
            }
        },
    }
}

/// What [`parse_chord_for_interval`] returns.
///
/// The chord must parse, have a root, and its root must name a note. The
/// bass of a slash chord must name a note, and is written as its distance
/// `0..=11` above the root, never folded. The suffix is brought to standard
/// form and, unless empty, must be a canonical suffix; the empty suffix is
/// written `M`. The quality is the suffix, then `/` and the bass distance if
/// there is a bass.
pub open spec fn parse_chord_for_interval_spec(chord: Seq<char>) -> Result<
    (u8, Seq<char>),
    Failure,
> {
    match parse_chord_spec(chord) {
        Err(e) => Err(e),
        Ok(parsed) => if parsed.root.len() == 0 {
            Err(Failure::ParseError("Empty chord root"@))
        } else {
            match note_index_spec(parsed.root) {
                Err(e) => Err(e),
                Ok(root) => match bass_distance(root as int, parsed.bass) {
                    Err(e) => Err(e),
                    Ok(distance) => match quality_of_suffix(parsed.suffix) {
                        Err(e) => Err(e),
                        Ok(quality) => match distance {
                            None => Ok((root, quality)),
                            Some(d) => Ok((root, quality + "/"@ + decimal(d as nat))),
                        },
                    },
                },
            }
        },
    }
}

/// Reads a chord as the pitch class of its root and its quality: `"Am"` is
/// `(9, "m")`, `"C/E"` is `(0, "M/4")`.
pub fn parse_chord_for_interval(chord: &str) -> (r: MusicResult<(u8, String)>)
    ensures
        outcome(r) == parse_chord_for_interval_spec(chord@),
{
    let parsed = parse_chord(chord)?;
    if parsed.root.as_str().unicode_len() == 0 {
        return Err(MusicError::ParseError(String::from_str("Empty chord root")));
    }
    let root = note_index(parsed.root.as_str())?;
    let distance = bass_distance_of(root, &parsed.bass)?;
    let quality = suffix_quality(parsed.suffix.as_str())?;
    match distance {
        None => Ok((root, quality)),
        Some(d) => {
            let mut text = chars_of(quality.as_str());
            text.push('/');
            push_decimal(&mut text, d);
            assert(text@ =~= quality@ + "/"@ + decimal(d as nat)) by {
                reveal_strlit("/");
            }
            Ok((root, string_of(&text)))
        },
    }
}

/// Each chord of a progression read as root and quality.
pub open spec fn encoded(history: Seq<Seq<char>>) -> Seq<Result<(u8, Seq<char>), Failure>> {
    Seq::new(history.len(), |i: int| parse_chord_for_interval_spec(history[i]))
}

/// The encoding of the first `n` chords of a progression whose chords can
/// all be read: the quality of the first chord; then for each further chord
/// `_`, the folded distance from the root before it, `_`, and its quality.
pub open spec fn interval_key_of(history: Seq<Seq<char>>, n: int) -> Seq<char>
    decreases n,
{
    if n <= 0 {
        Seq::empty()
    } else if n == 1 {
        encoded(history)[0]->Ok_0.1
    } else {
        let this = encoded(history)[n - 1]->Ok_0;
        let before = encoded(history)[n - 2]->Ok_0;
        interval_key_of(history, n - 1) + "_"@ + decimal(
            normalized_interval(this.0 - before.0) as nat,
        ) + "_"@ + this.1
    }
}

/// What [`history_to_interval_key`] returns: an error for the empty
/// progression, the error of the first chord that cannot be read, and
/// otherwise the encoding of the whole progression.
pub open spec fn history_to_interval_key_spec(history: Seq<Seq<char>>) -> Result<
    Seq<char>,
    Failure,
> {
    if history.len() == 0 {
        Err(Failure::ParseError("Empty history"@))
    } else {
        match all_or_first_error(encoded(history)) {
            Err(e) => Err(e),
            Ok(_) => Ok(interval_key_of(history, history.len() as int)),
        }
    }
}

/// Encodes a progression of chords in a form that does not depend on the
/// key: C, Am, F becomes `M_3_m_4_M`; a single chord gives its quality.
pub fn history_to_interval_key(history: &[String]) -> (r: MusicResult<String>)
    ensures
        outcome(r) == history_to_interval_key_spec(history.deep_view()),
{
    if history.len() == 0 {
        return Err(MusicError::ParseError(String::from_str("Empty history")));
    }
    let ghost h = history.deep_view();
    let ghost items = encoded(h);
    let ghost mut done: Seq<(u8, Seq<char>)> = Seq::empty();
    let mut out: Vec<char> = Vec::new();
    let mut prev_root: u8 = 0;
    let mut i: usize = 0;
    while i < history.len()
        invariant
            i <= history.len(),
            h == history.deep_view(),
            items == encoded(h),
            collected(items, i as int) == Ok::<Seq<(u8, Seq<char>)>, Failure>(done),
            out@ == interval_key_of(h, i as int),
            i > 0 ==> prev_root == items[i - 1]->Ok_0.0,
            prev_root < 12,
        decreases history.len() - i,
    {
        assert(h[i as int] == history[i as int]@);
        match parse_chord_for_interval(history[i].as_str()) {
            Err(e) => {
                proof {
                    lemma_collected_error(items, i + 1, history.len() as int);
                }
                return Err(e);
            },
            Ok((root, quality)) => {
                let ghost before = out@;
                if i > 0 {
                    out.push('_');
                    push_decimal(&mut out, normalize_interval(root as i32 - prev_root as i32));
                    out.push('_');
                }
                append(&mut out, &chars_of(quality.as_str()));
                proof {
                    reveal_strlit("_");
                    done = done.push((root, quality@));
                    if i > 0 {
                        assert(out@ =~= before + "_"@ + decimal(
                            normalized_interval(root - prev_root) as nat,
                        ) + "_"@ + quality@);
                    } else {
                        assert(out@ =~= quality@);
                    }
                }
                prev_root = root;
            },
        }
        i += 1;
    }
    Ok(string_of(&out))
}

/// What [`parse_interval_key`] returns: the text must hold exactly one `_`,
/// with a number `0..=255` before it; the quality is what follows it.
pub open spec fn parse_interval_key_spec(key: Seq<char>) -> Result<(u8, Seq<char>), Failure> {
    let cut = find(key, '_');
    if cut >= key.len() || find_from(key, '_', cut + 1) < key.len() {
        Err(Failure::ParseError("Invalid interval key format: "@ + key))
    } else {
        match parsed_u8(key.take(cut)) {
            None => Err(Failure::ParseError("Invalid interval: "@ + key.take(cut))),
            Some(interval) => Ok((interval, key.skip(cut + 1))),
        }
    }
}

/// Reads one step of an encoding, such as `3_m`, as distance and quality.
pub fn parse_interval_key(key: &str) -> (r: MusicResult<(u8, String)>)
    ensures
        outcome(r) == parse_interval_key_spec(key@),
{
    let v = chars_of(key);
    let cut = find_char(&v, '_');
    if cut >= v.len() {
        return Err(
            MusicError::ParseError(String::from_str("Invalid interval key format: ").concat(key)),
        );
    }
    let rest = slice(&v, cut + 1, v.len());
    let second = find_char(&rest, '_');
    proof {
        lemma_find_shifted(v@, '_', cut + 1);
    }
    if second < rest.len() {
        return Err(
            MusicError::ParseError(String::from_str("Invalid interval key format: ").concat(key)),
        );
    }
    let head = slice(&v, 0, cut);
    match parse_u8(&head) {
        None => Err(
            MusicError::ParseError(
                String::from_str("Invalid interval: ").concat(string_of(&head).as_str()),
            ),
        ),
        Some(interval) => Ok((interval, string_of(&rest))),
    }
}

/// What [`parse_quality_with_bass`] returns: the quality up to its first
/// `/`, and the number `0..=255` after it, if there is a `/`.
pub open spec fn parse_quality_with_bass_spec(quality: Seq<char>) -> Result<
    (Seq<char>, Option<u8>),
    Failure,
> {
    let cut = find(quality, '/');
    if cut >= quality.len() {
        Ok((quality, None))
    } else {
        match parsed_u8(quality.skip(cut + 1)) {
            None => Err(Failure::ParseError("Invalid bass interval: "@ + quality.skip(cut + 1))),
            Some(bass) => Ok((quality.take(cut), Some(bass))),
        }
    }
}

/// Splits a quality into the quality proper and the bass distance: `M/4`
/// is `("M", Some(4))`, `m7` is `("m7", None)`.
pub fn parse_quality_with_bass(quality: &str) -> (r: MusicResult<(String, Option<u8>)>)
    ensures
        outcome(r) == parse_quality_with_bass_spec(quality@),
{
    let v = chars_of(quality);
    let cut = find_char(&v, '/');
    if cut >= v.len() {
        return Ok((String::from_str(quality), None));
    }
    let tail = slice(&v, cut + 1, v.len());
    match parse_u8(&tail) {
        None => Err(
            MusicError::ParseError(
                String::from_str("Invalid bass interval: ").concat(string_of(&tail).as_str()),
            ),
        ),
        Some(bass) => Ok((string_of(&slice(&v, 0, cut)), Some(bass))),
    }
}

/// The pitch class of the bass that lies `bass_interval` above a root.
pub fn calculate_bass_semitone(root_semitone: u8, bass_interval: u8) -> (r: u8)
    ensures
        r == (root_semitone + bass_interval) % 12,
{
    ((root_semitone as u16 + bass_interval as u16) % 12) as u8
}

/// The name of a semitone as `key` spells it.
pub fn semitone_to_note_in_key(semitone: u8, key: &str, use_flats: bool) -> (r: String)
    ensures
        r@ == preferred_note_name(semitone as int, key@, use_flats),
{
    String::from_str(get_preferred_note_name(semitone, key, use_flats))
}

/// The name of a slash chord: root, suffix, `/`, bass.
pub fn build_slash_chord(root: &str, suffix: &str, bass_note: &str) -> (r: String)
    ensures
        r@ == root@ + suffix@ + "/"@ + bass_note@,
{
    String::from_str(root).concat(suffix).concat("/").concat(bass_note)
}

/// What [`interval_to_chord`] returns.
///
/// The new root lies `interval` above `from_root` and is spelled for `key`.
/// The quality is split at its first `/`; what follows must be a number, the
/// distance of the bass above the new root. The quality proper must be `M`,
/// which stands for the empty suffix, or a canonical suffix.
pub open spec fn interval_to_chord_spec(
    interval: int,
    quality: Seq<char>,
    from_root: int,
    use_flats: bool,
    key: Seq<char>,
) -> Result<Seq<char>, Failure> {
    let new_root = (from_root + interval) % 12;
    let root_note = preferred_note_name(new_root, key, use_flats);
    match parse_quality_with_bass_spec(quality) {
        Err(e) => Err(e),
        Ok((main, bass)) => if main != "M"@ && !valid_suffix(main) {
            Err(Failure::ParseError("Invalid chord suffix: "@ + main))
        } else {
            let suffix = if main == "M"@ {
                Seq::empty()
            } else {
                main
            };
            match bass {
                None => Ok(root_note + suffix),
                Some(distance) => Ok(
                    root_note + suffix + "/"@ + preferred_note_name(
                        (new_root + distance) % 12,
                        key,
                        use_flats,
                    ),
                ),
            }
        },
    }
}

/// Turns one step of an encoding back into a chord: from the root `E`
/// (4), the distance 5 and the quality `m` give `Am`; the quality `M/4` on
/// `C` gives `C/E`.
pub fn interval_to_chord(interval: u8, quality: &str, from_root: u8, use_flats: bool, key: &str) -> (r:
    MusicResult<String>)
    ensures
        outcome(r) == interval_to_chord_spec(
            interval as int,
            quality@,
            from_root as int,
            use_flats,
            key@,
        ),
{
    let new_root = calculate_bass_semitone(from_root, interval);
    let root_note = semitone_to_note_in_key(new_root, key, use_flats);
    let (main, bass) = parse_quality_with_bass(quality)?;
    let major = is_text(&chars_of(main.as_str()), "M");
    if !major && !is_valid_suffix(main.as_str()) {
        return Err(
            MusicError::ParseError(String::from_str("Invalid chord suffix: ").concat(main.as_str())),
        );
    }
    let suffix = if major {
        String::new()
    } else {
        main
    };
    match bass {
        None => Ok(root_note.concat(suffix.as_str())),
        Some(distance) => {
            let bass_note = semitone_to_note_in_key(
                calculate_bass_semitone(new_root, distance),
                key,
                use_flats,
            );
            Ok(build_slash_chord(root_note.as_str(), suffix.as_str(), bass_note.as_str()))
        },
    }
}

/// The text an encoded step is shown with: the step itself.
pub fn interval_key_to_display(key: &str) -> (r: String)
    ensures
        r@ == key@,
{
    String::from_str(key)
}

} // verus!
