//! The pitches of a chord for notation: every chord tone with the octave it
//! is written in, the name the chord is shown under, and inversions.

use crate::intervals::{
    interval_specs_for, parse_chord_with_interval_specs, spell_interval_spec,
    spell_interval_with_degree, well_formed_tones,
};
use crate::text::{chars_of, is_text};
use crate::types::{all_or_first_error, collected, failure_message, lemma_collected_error};
use vstd::prelude::*;
use vstd::string::*;

verus! {

/// A note with the octave it is written in.
#[derive(Debug, Clone, PartialEq)]
pub struct PitchResult {
    pub note: String,
    pub octave: u8,
}

/// The model of a [`PitchResult`].
pub struct PitchModel {
    pub note: Seq<char>,
    pub octave: int,
}

impl DeepView for PitchResult {
    type V = PitchModel;

    open spec fn deep_view(&self) -> PitchModel {
        PitchModel { note: self.note@, octave: self.octave as int }
    }
}

/// What is asked for: the chord's root and quality, the octave of the root,
/// and perhaps an inversion, `root`, `first`, `second` or `third`.
#[derive(Debug, Clone)]
pub struct ChordRequest {
    pub root: String,
    pub quality: String,
    pub root_octave: u8,
    pub inversion: Option<String>,
}

/// The model of a [`ChordRequest`].
pub struct ChordRequestModel {
    pub root: Seq<char>,
    pub quality: Seq<char>,
    pub root_octave: int,
    pub inversion: Option<Seq<char>>,
}

impl DeepView for ChordRequest {
    type V = ChordRequestModel;

    open spec fn deep_view(&self) -> ChordRequestModel {
        ChordRequestModel {
            root: self.root@,
            quality: self.quality@,
            root_octave: self.root_octave as int,
            inversion: self.inversion.deep_view(),
        }
    }
}

/// The pitches of a chord, lowest first, and the name it is shown under.
#[derive(Debug, Clone)]
pub struct ChordResponse {
    pub pitches: Vec<PitchResult>,
    pub display_name: String,
}

/// The model of a [`ChordResponse`].
pub struct ChordResponseModel {
    pub pitches: Seq<PitchModel>,
    pub display_name: Seq<char>,
}

impl DeepView for ChordResponse {
    type V = ChordResponseModel;

    open spec fn deep_view(&self) -> ChordResponseModel {
        ChordResponseModel {
            pitches: self.pitches.deep_view(),
            display_name: self.display_name@,
        }
    }
}

/// The chord suffix that a long quality name stands for; any other quality
/// as it is.
pub open spec fn normalized_quality(q: Seq<char>) -> Seq<char> {
    if q == "major"@ {
        "maj"@
    } else if q == "minor"@ {
        "min"@
    } else if q == "diminished"@ {
        "dim"@
    } else if q == "augmented"@ {
        "aug"@
    } else if q == "major7"@ {
        "maj7"@
    } else if q == "minor7"@ {
        "min7"@
    } else if q == "dominant7"@ {
        "7"@
    } else if q == "diminished7"@ {
        "dim7"@
    } else if q == "half-diminished7"@ {
        "m7b5"@
    } else if q == "augmented7"@ {
        "aug7"@
    } else {
        q
    }
}

/// The chord suffix for a quality name: `major` is `maj`, `dominant7` is
/// `7`; what is no long name stays as it is.
pub fn normalize_quality<'a>(quality: &'a str) -> (r: &'a str)
    ensures
        r@ == normalized_quality(quality@),
{
    let q = chars_of(quality);
    if is_text(&q, "major") {
        "maj"
    } else if is_text(&q, "minor") {
        "min"
    } else if is_text(&q, "diminished") {
        "dim"
    } else if is_text(&q, "augmented") {
        "aug"
    } else if is_text(&q, "major7") {
        "maj7"
    } else if is_text(&q, "minor7") {
        "min7"
    } else if is_text(&q, "dominant7") {
        "7"
    } else if is_text(&q, "diminished7") {
        "dim7"
    } else if is_text(&q, "half-diminished7") {
        "m7b5"
    } else if is_text(&q, "augmented7") {
        "aug7"
    } else {
        quality
    }
}

/// Whether a quality names a seventh chord, which has four notes.
pub open spec fn is_seventh_quality(q: Seq<char>) -> bool {
    q == "major7"@ || q == "maj7"@ || q == "minor7"@ || q == "min7"@ || q == "dominant7"@ || q == "7"@ || q == "diminished7"@ || q == "dim7"@ || q == "half-diminished7"@ || q == "m7b5"@ || q == "augmented7"@ || q == "aug7"@
}

/// Whether a quality names a seventh chord.
pub fn is_seventh_chord(quality: &str) -> (r: bool)
    ensures
        r == is_seventh_quality(quality@),
{
    let q = chars_of(quality);
    is_text(&q, "major7") || is_text(&q, "maj7") || is_text(&q, "minor7") || is_text(&q, "min7") || is_text(&q, "dominant7") || is_text(&q, "7") || is_text(&q, "diminished7") || is_text(&q, "dim7") || is_text(&q, "half-diminished7") || is_text(&q, "m7b5") || is_text(&q, "augmented7") || is_text(&q, "aug7")
}

/// The figures of figured bass for an inversion, upper and lower: a triad
/// has 6 and 6/4, a seventh chord 6/5, 4/3 and 4/2; root position, and any
/// other word, has none.
pub open spec fn inversion_figures(inversion: Option<Seq<char>>, is_seventh: bool) -> (
    Seq<char>,
    Seq<char>,
) {
    match inversion {
        None => (""@, ""@),
        Some(name) => if name == "root"@ {
            (""@, ""@)
        } else if name == "first"@ {
            if is_seventh {
                ("6"@, "5"@)
            } else {
                ("6"@, ""@)
            }
        } else if name == "second"@ {
            if is_seventh {
                ("4"@, "3"@)
            } else {
                ("6"@, "4"@)
            }
        } else if name == "third"@ && is_seventh {
            ("4"@, "2"@)
        } else {
            (""@, ""@)
        },
    }
}

/// The figures of figured bass for an inversion, upper and lower.
pub fn get_inversion_figures(inversion: Option<&str>, is_seventh: bool) -> (r: (
    &'static str,
    &'static str,
))
    ensures
        (r.0@, r.1@) == inversion_figures(inversion.deep_view(), is_seventh),
{
    match inversion {
        None => ("", ""),
        Some(name) => {
            let n = chars_of(name);
            if is_text(&n, "root") {
                ("", "")
            } else if is_text(&n, "first") {
                if is_seventh {
                    ("6", "5")
                } else {
                    ("6", "")
                }
            } else if is_text(&n, "second") {
                if is_seventh {
                    ("4", "3")
                } else {
                    ("6", "4")
                }
            } else if is_text(&n, "third") && is_seventh {
                ("4", "2")
            } else {
                ("", "")
            }
        },
    }
}

/// The suffix under which a quality is shown; an unknown quality as it is.
pub open spec fn display_suffix(q: Seq<char>) -> Seq<char> {
    if q == "major"@ || q == "maj"@ {
        ""@
    } else if q == "minor"@ || q == "min"@ {
        "m"@
    } else if q == "diminished"@ || q == "dim"@ {
        "dim"@
    } else if q == "augmented"@ || q == "aug"@ {
        "aug"@
    } else if q == "major7"@ || q == "maj7"@ {
        "maj7"@
    } else if q == "minor7"@ || q == "min7"@ {
        "m7"@
    } else if q == "dominant7"@ || q == "7"@ {
        "7"@
    } else if q == "diminished7"@ || q == "dim7"@ {
        "dim7"@
    } else if q == "half-diminished7"@ || q == "m7b5"@ {
        "ø7"@
    } else if q == "augmented7"@ || q == "aug7"@ {
        "aug7"@
    } else {
        q
    }
}

/// The suffix under which a quality is shown.
pub fn display_suffix_of<'a>(quality: &'a str) -> (r: &'a str)
    ensures
        r@ == display_suffix(quality@),
{
    let q = chars_of(quality);
    if is_text(&q, "major") || is_text(&q, "maj") {
        ""
    } else if is_text(&q, "minor") || is_text(&q, "min") {
        "m"
    } else if is_text(&q, "diminished") || is_text(&q, "dim") {
        "dim"
    } else if is_text(&q, "augmented") || is_text(&q, "aug") {
        "aug"
    } else if is_text(&q, "major7") || is_text(&q, "maj7") {
        "maj7"
    } else if is_text(&q, "minor7") || is_text(&q, "min7") {
        "m7"
    } else if is_text(&q, "dominant7") || is_text(&q, "7") {
        "7"
    } else if is_text(&q, "diminished7") || is_text(&q, "dim7") {
        "dim7"
    } else if is_text(&q, "half-diminished7") || is_text(&q, "m7b5") {
        "ø7"
    } else if is_text(&q, "augmented7") || is_text(&q, "aug7") {
        "aug7"
    } else {
        quality
    }
}

/// The name a chord is shown under: root and suffix, and for an inversion
/// with figures `|`, the upper figure, `|`, the lower figure.
pub open spec fn display_name(root: Seq<char>, quality: Seq<char>, inversion: Option<Seq<char>>) -> Seq<
    char,
> {
    let figures = inversion_figures(inversion, is_seventh_quality(quality));
    if figures.0.len() == 0 && figures.1.len() == 0 {
        root + display_suffix(quality)
    } else {
        root + display_suffix(quality) + "|"@ + figures.0 + "|"@ + figures.1
    }
}

/// The name a chord is shown under, such as `Cm|6|4` for the second
/// inversion of C minor.
pub fn format_display_name(root: &str, quality: &str, inversion: Option<&str>) -> (r: String)
    ensures
        r@ == display_name(root@, quality@, inversion.deep_view()),
{
    let name = String::from_str(root).concat(display_suffix_of(quality));
    let figures = get_inversion_figures(inversion, is_seventh_chord(quality));
    if figures.0.unicode_len() == 0 && figures.1.unicode_len() == 0 {
        name
    } else {
        name.concat("|").concat(figures.0).concat("|").concat(figures.1)
    }
}

/// The pitch class of the natural note on a letter, in either case.
pub open spec fn letter_base(c: char) -> Option<int> {
    if c == 'C' || c == 'c' {
        Some(0)
    } else if c == 'D' || c == 'd' {
        Some(2)
    } else if c == 'E' || c == 'e' {
        Some(4)
    } else if c == 'F' || c == 'f' {
        Some(5)
    } else if c == 'G' || c == 'g' {
        Some(7)
    } else if c == 'A' || c == 'a' {
        Some(9)
    } else if c == 'B' || c == 'b' {
        Some(11)
    } else {
        None
    }
}

/// What the characters of `s` before index `n`, the first left out, add to
/// a pitch: one semitone for each `#`, one less for each `b`.
pub open spec fn accidentals_upto(s: Seq<char>, n: int) -> int
    decreases n,
{
    if n <= 1 {
        0
    } else {
        accidentals_upto(s, n - 1) + (if s[n - 1] == '#' {
            1int
        } else if s[n - 1] == 'b' {
            -1int
        } else {
            0int
        })
    }
}

/// The remainder of a division that rounds towards zero: it has the sign
/// of `a`.
pub open spec fn truncated_rem(a: int, m: int) -> int {
    if a >= 0 {
        a % m
    } else {
        -((-a) % m)
    }
}

/// The quotient of a division that rounds towards zero.
pub open spec fn truncated_div(a: int, m: int) -> int {
    if a >= 0 {
        a / m
    } else {
        -((-a) / m)
    }
}

/// What [`note_to_semitone`] returns: the pitch of the letter, moved by
/// every sharp and flat behind it, as a remainder of 12; negative when the
/// flats outweigh the letter by more than an octave. Text that does not
/// begin with a note letter names no note.
pub open spec fn note_semitone(note: Seq<char>) -> Option<i32> {
    if note.len() == 0 {
        None
    } else {
        match letter_base(note[0]) {
            None => None,
            Some(base) => Some(
                truncated_rem(base + accidentals_upto(note, note.len() as int) + 12, 12) as i32,
            ),
        }
    }
}

/// The pitch of the natural note on a letter, in either case.
pub fn letter_base_of(c: char) -> (r: Option<u8>)
    ensures
        match r {
            Some(b) => letter_base(c) == Some(b as int) && b < 12,
            None => letter_base(c) is None,
        },
{
    if c == 'C' || c == 'c' {
        Some(0)
    } else if c == 'D' || c == 'd' {
        Some(2)
    } else if c == 'E' || c == 'e' {
        Some(4)
    } else if c == 'F' || c == 'f' {
        Some(5)
    } else if c == 'G' || c == 'g' {
        Some(7)
    } else if c == 'A' || c == 'a' {
        Some(9)
    } else if c == 'B' || c == 'b' {
        Some(11)
    } else {
        None
    }
}

/// The distance of a note above C in semitones, from its letter and the
/// sharps and flats behind it.
pub fn note_to_semitone(note: &str) -> (r: Option<i32>)
    ensures
        r == note_semitone(note@),
{
    let v = chars_of(note);
    if v.len() == 0 {
        return None;
    }
    let base = match letter_base_of(v[0]) {
        Some(b) => b,
        None => { return None; },
    };
    let mut sum: i128 = 0;
    let mut i: usize = 1;
    while i < v.len()
        invariant
            1 <= i <= v.len(),
            sum == accidentals_upto(v@, i as int),
            -(i as int) <= sum <= i as int,
        decreases v.len() - i,
    {
        if v[i] == '#' {
            sum = sum + 1;
        } else if v[i] == 'b' {
            sum = sum - 1;
        }
        i += 1;
    }
    let total: i128 = base as i128 + sum + 12;
    if total >= 0 {
        Some((total % 12) as i32)
    } else {
        Some(-(((-total) % 12) as i32))
    }
}

/// By how much the octave of a tone is corrected for its spelling: a `Cb`
/// sounds as the B below and is written one octave higher than it sounds; a
/// `B#` sounds as the C above and is written one octave lower.
pub open spec fn octave_adjustment(note: Seq<char>, expected: int) -> int {
    let heard = match note_semitone(note) {
        Some(n) => n as int,
        None => 0,
    };
    if heard == 11 && expected == 11 && note.len() > 0 && note[0] == 'C' {
        1
    } else if heard == 0 && expected == 0 && note.len() > 0 && note[0] == 'B' {
        -1
    } else {
        0
    }
}

/// One chord tone with the octave it is written in.
///
/// The tone is spelled above the root with the letter of its scale degree.
/// Its octave is that of the root, plus one for every twelve semitones that
/// the tone lies above C, corrected for a `Cb` or `B#`, and taken as a
/// remainder of 256.
pub open spec fn tone_pitch(root: Seq<char>, root_semitone: int, root_octave: int, tone: (u8, u8)) -> Result<
    PitchModel,
    Seq<char>,
> {
    match spell_interval_spec(root, tone.0 as int, tone.1 as int) {
        Err(e) => Err("Spelling error: "@ + failure_message(e)),
        Ok(note) => {
            let absolute = root_semitone + tone.0;
            Ok(
                PitchModel {
                    note,
                    octave: written_octave(
                        root_octave,
                        absolute,
                        octave_adjustment(note, absolute % 12),
                    ),
                },
            )
        },
    }
}

/// The octave a tone is written in, as a remainder of 256.
pub open spec fn written_octave(root_octave: int, absolute: int, adjustment: int) -> int {
    (root_octave + truncated_div(absolute, 12) + adjustment) % 256
}

/// The octave a tone is written in.
pub fn written_octave_of(root_octave: u8, absolute: i32, adjustment: i32) -> (r: u8)
    requires
        -12 < absolute < 300,
        -1 <= adjustment <= 1,
    ensures
        r == written_octave(root_octave as int, absolute as int, adjustment as int),
{
    let octaves: i32 = if absolute >= 0 {
        absolute / 12
    } else {
        0
    };
    let written: i32 = root_octave as i32 + octaves + adjustment;
    if written < 0 {
        (written + 256) as u8
    } else if written >= 256 {
        (written - 256) as u8
    } else {
        written as u8
    }
}

/// By how much the octave of a tone is corrected for its spelling.
pub fn octave_adjustment_of(note: &str, absolute: i32) -> (r: i32)
    requires
        -12 < absolute < 300,
    ensures
        r == octave_adjustment(note@, absolute as int % 12),
        -1 <= r <= 1,
{
    let expected: i32 = ((absolute % 12) + 12) % 12;
    let heard: i32 = match note_to_semitone(note) {
        Some(n) => n,
        None => 0,
    };
    let v = chars_of(note);
    if heard == 11 && expected == 11 && v.len() > 0 && v[0] == 'C' {
        1
    } else if heard == 0 && expected == 0 && v.len() > 0 && v[0] == 'B' {
        -1
    } else {
        0
    }
}

/// One chord tone with the octave it is written in.
pub fn pitch_of_tone(root: &str, root_semitone: i32, root_octave: u8, tone: (u8, u8)) -> (r: Result<
    PitchResult,
    String,
>)
    requires
        -12 < root_semitone < 12,
        tone.1 >= 1,
    ensures
        match r {
            Ok(p) => tone_pitch(root@, root_semitone as int, root_octave as int, tone) == Ok::<
                PitchModel,
                Seq<char>,
            >(p.deep_view()),
            Err(e) => tone_pitch(root@, root_semitone as int, root_octave as int, tone) == Err::<
                PitchModel,
                Seq<char>,
            >(e@),
        },
{
    let note = match spell_interval_with_degree(root, tone.0, tone.1) {
        Ok(n) => n,
        Err(e) => {
            return Err(String::from_str("Spelling error: ").concat(e.message().as_str()));
        },
    };
    let absolute: i32 = root_semitone + tone.0 as i32;
    let adjustment = octave_adjustment_of(note.as_str(), absolute);
    let octave = written_octave_of(root_octave, absolute, adjustment);
    Ok(PitchResult { note, octave })
}

/// How many places an inversion turns the chord: one for `first`, two for
/// `second`, three for `third`, none otherwise.
pub open spec fn inversion_shift(inversion: Option<Seq<char>>) -> int {
    match inversion {
        None => 0,
        Some(name) => if name == "first"@ {
            1
        } else if name == "second"@ {
            2
        } else if name == "third"@ {
            3
        } else {
            0
        },
    }
}

/// How many places an inversion turns the chord.
pub fn inversion_shift_of(inversion: &Option<String>) -> (r: usize)
    ensures
        r == inversion_shift(inversion.deep_view()),
{
    match inversion {
        None => 0,
        Some(name) => {
            let n = chars_of(name.as_str());
            if is_text(&n, "first") {
                1
            } else if is_text(&n, "second") {
                2
            } else if is_text(&n, "third") {
                3
            } else {
                0
            }
        },
    }
}

/// A chord turned by `shift` places: the notes from place `shift` on go
/// down one octave, unless they are in octave 0, and come first; the notes
/// before them follow. The shift counts round the chord.
pub open spec fn inverted(pitches: Seq<PitchModel>, shift: int) -> Seq<PitchModel> {
    if pitches.len() == 0 || shift <= 0 {
        pitches
    } else {
        let k = shift % (pitches.len() as int);
        Seq::new(
            pitches.len(),
            |i: int|
                {
                    let j = (i + k) % (pitches.len() as int);
                    if j >= k && pitches[j].octave > 0 {
                        PitchModel { note: pitches[j].note, octave: pitches[j].octave - 1 }
                    } else {
                        pitches[j]
                    }
                },
        )
    }
}

/// Turns a chord by `shift` places.
pub fn invert(pitches: Vec<PitchResult>, shift: usize) -> (r: Vec<PitchResult>)
    ensures
        r.deep_view() == inverted(pitches.deep_view(), shift as int),
{
    let n = pitches.len();
    if n == 0 || shift == 0 {
        return pitches;
    }
    let k: usize = shift % n;
    let mut out: Vec<PitchResult> = Vec::new();
    let mut i: usize = 0;
    while i < n
        invariant
            i <= n,
            n == pitches.len(),
            n > 0,
            k < n,
            shift > 0,
            k == (shift as int) % (n as int),
            pitches.deep_view().len() == n,
            out.len() == i,
            forall|a: int|
                0 <= a < i ==> (#[trigger] out[a]).deep_view() == inverted(
                    pitches.deep_view(),
                    shift as int,
                )[a],
        decreases n - i,
    {
        let j: usize = if i >= n - k {
            i - (n - k)
        } else {
            i + k
        };
        assert(j == (i + k) % (n as int)) by (nonlinear_arith)
            requires
                0 <= j < n,
                j == i + k || j == i + k - n,
        ;
        assert(pitches.deep_view()[j as int] == pitches[j as int].deep_view());
        let octave: u8 = if j >= k && pitches[j].octave > 0 {
            pitches[j].octave - 1
        } else {
            pitches[j].octave
        };
        out.push(PitchResult { note: pitches[j].note.clone(), octave });
        assert(out[i as int].deep_view() == inverted(pitches.deep_view(), shift as int)[i as int]);
        i += 1;
    }
    assert(out.deep_view() =~= inverted(pitches.deep_view(), shift as int));
    out
}

/// Each tone of a chord with the octave it is written in.
pub open spec fn tone_pitches(root: Seq<char>, root_semitone: int, root_octave: int, tones: Seq<(u8, u8)>) -> Seq<
    Result<PitchModel, Seq<char>>,
> {
    Seq::new(tones.len(), |i: int| tone_pitch(root, root_semitone, root_octave, tones[i]))
}

/// What [`generate_chord_pitches`] returns.
///
/// The root must begin with a note letter. The tones are those of the
/// quality, in its short form; each is spelled above the root and given its
/// octave, and the first that cannot be spelled is the error. An inversion
/// turns the chord. The name is that of root, quality and inversion.
pub open spec fn generate_chord_pitches_spec(request: ChordRequestModel) -> Result<
    ChordResponseModel,
    Seq<char>,
> {
    match note_semitone(request.root) {
        None => Err("Invalid root note: "@ + request.root),
        Some(root_semitone) => match all_or_first_error(
            tone_pitches(
                request.root,
                root_semitone as int,
                request.root_octave,
                interval_specs_for(normalized_quality(request.quality)),
            ),
        ) {
            Err(e) => Err(e),
            Ok(pitches) => Ok(
                ChordResponseModel {
                    pitches: inverted(pitches, inversion_shift(request.inversion)),
                    display_name: display_name(request.root, request.quality, request.inversion),
                },
            ),
        },
    }
}

/// The written pitches of a chord, from its root, its quality, the octave
/// of its root and its inversion: F minor seventh from octave 3 is F3, Ab3,
/// C4, Eb4.
pub fn generate_chord_pitches(request: ChordRequest) -> (r: Result<ChordResponse, String>)
    ensures
        match r {
            Ok(response) => generate_chord_pitches_spec(request.deep_view()) == Ok::<
                ChordResponseModel,
                Seq<char>,
            >(response.deep_view()),
            Err(e) => generate_chord_pitches_spec(request.deep_view()) == Err::<
                ChordResponseModel,
                Seq<char>,
            >(e@),
        },
{
    let quality = normalize_quality(request.quality.as_str());
    let tones = match parse_chord_with_interval_specs(quality) {
        Ok(t) => t,
        Err(e) => {
            // Not reached: every quality has tones.
            return Err(e.message());
        },
    };
    let root_semitone = match note_to_semitone(request.root.as_str()) {
        Some(n) => n,
        None => {
            return Err(String::from_str("Invalid root note: ").concat(request.root.as_str()));
        },
    };
    proof {
        lemma_note_semitone_bounds(request.root@);
    }
    let ghost items = tone_pitches(
        request.root@,
        root_semitone as int,
        request.root_octave as int,
        tones@,
    );
    let mut pitches: Vec<PitchResult> = Vec::new();
    assert(pitches.deep_view() =~= Seq::<PitchModel>::empty());
    let mut i: usize = 0;
    while i < tones.len()
        invariant
            i <= tones.len(),
            -12 < root_semitone < 12,
            well_formed_tones(tones@),
            note_semitone(request.root@) == Some(root_semitone),
            tones@ == interval_specs_for(normalized_quality(request.quality@)),
            items == tone_pitches(
                request.root@,
                root_semitone as int,
                request.root_octave as int,
                tones@,
            ),
            collected(items, i as int) == Ok::<Seq<PitchModel>, Seq<char>>(pitches.deep_view()),
        decreases tones.len() - i,
    {
        assert(tones@[i as int].1 >= 1);
        match pitch_of_tone(request.root.as_str(), root_semitone, request.root_octave, tones[i]) {
            Ok(pitch) => {
                let ghost before = pitches.deep_view();
                pitches.push(pitch);
                assert(pitches.deep_view() =~= before.push(pitch.deep_view()));
            },
            Err(e) => {
                proof {
                    lemma_collected_error(items, i + 1, tones.len() as int);
                }
                return Err(e);
            },
        }
        i += 1;
    }
    let display_name = format_display_name(
        request.root.as_str(),
        request.quality.as_str(),
        match &request.inversion {
            Some(name) => Some(name.as_str()),
            None => None,
        },
    );
    let turned = invert(pitches, inversion_shift_of(&request.inversion));
    Ok(ChordResponse { pitches: turned, display_name })
}

/// The distance of a note above C lies within an octave either way.
pub proof fn lemma_note_semitone_bounds(note: Seq<char>)
    ensures
        note_semitone(note) is Some ==> -12 < note_semitone(note)->0 < 12,
{
}

} // verus!
